//! The words of the user interface in English.

use crate::util::list::{first_index, lemma_first_index_is};
use crate::util::str::str_eq;
use vstd::prelude::*;

verus! {

/// The words of the user interface, each with its English.
pub open spec fn dictionary() -> Seq<(Seq<char>, Seq<char>)> {
    seq![
        ("出错"@, "Error"@),
        ("原因"@, "Reason"@),
        ("取消"@, "Cancel"@),
        ("确认"@, "Confirm"@),
        ("编辑"@, "Edit"@),
        ("删除"@, "Delete"@),
        ("删除成功"@, "Delete success"@),
        ("删除失败"@, "Delete failed"@),
        ("添加成功"@, "Add success"@),
        ("添加失败"@, "Add failed"@),
        ("复制失败"@, "Copy failed"@),
        ("复制成功"@, "Copy success"@),
        ("清空失败"@, "Delete failed"@),
        ("清空成功"@, "Delete success"@),
        ("保存失败"@, "Save failed"@),
        ("保存成功"@, "Save success"@),
        ("重置成功"@, "Reset success"@),
        ("刷新成功"@, "Flush success"@),
        ("发送失败"@, "Send failed"@),
        ("下载成功"@, "Download success"@),
        ("下载失败"@, "Download failed"@),
        ("加载失败"@, "Load failed"@),
        ("密码错误"@, "Wrong password"@),
        ("创建账户成功"@, "Create account success"@),
        ("创建账户失败"@, "Create account failed"@),
        ("非法输入"@, "Invalid input"@),
        ("刷新..."@, "Refresh..."@),
        ("正在重试..."@, "Retrying..."@),
        ("正在下载..."@, "Downloading..."@),
        ("是否删除全部？"@, "Delete all entrys or not?"@),
        ("是否删除全部缓存？"@, "Delete all cache or not?"@),
        ("清除缓存失败"@, "Remove cache failed"@),
        ("清除缓存成功"@, "Remove cache success"@),
        ("界 面"@, "UI"@),
        ("同 步"@, "Sync"@),
        ("代 理"@, "Proxy"@),
        ("缓 存"@, "Cache"@),
        ("关 于"@, "About"@),
        ("帮 助"@, "Help"@),
        ("新建"@, "New"@),
        ("没有订阅"@, "No RSS"@),
        ("RSS名称和图标"@, "RSS name and icon"@),
        ("请输入RSS名称"@, "Please input RSS name"@),
        ("RSS源地址"@, "RSS URL"@),
        ("请输入RSS源地址"@, "Please input RSS URL"@),
        ("RSS源格式"@, "RSS format"@),
        ("已经Http启用代理"@, "Enabled Http proxy"@),
        ("未启Http用代理"@, "Disable Http proxy"@),
        ("已经Socks5启用代理"@, "Enabled Socks5 proxy"@),
        ("未启Socks5用代理"@, "Disable Socks5 proxy"@),
        ("已经收藏"@, "Star"@),
        ("未收藏"@, "Not star"@),
        ("图标库"@, "Icons"@),
        ("请选择条目"@, "Please select entry"@),
        ("字体大小"@, "Font size"@),
        ("字体样式"@, "Font family"@),
        ("选择语言"@, "Choose language"@),
        ("同步时间间隔(分钟)"@, "Sync time interval(minute)"@),
        ("请输入时间间隔"@, "Please input time interval"@),
        ("同步超时(秒)"@, "Sync timeout(second)"@),
        ("请输入同步超时"@, "Please input sync timeout"@),
        ("已经启用自动同步"@, "Enabled auto sync"@),
        ("未启用自动同步"@, "Disable auto sync"@),
        ("程序启动时，马上进行一次同步"@, "Starting sync once, when application starting"@),
        ("程序启动时，不马上进行一次同步"@, "Don't start sync, when application starting"@),
        ("代理地址"@, "Proxy address"@),
        ("代理端口"@, "Proxy port"@),
        ("警告"@, "Warning"@),
        ("订阅"@, "RSS"@),
        ("收藏夹"@, "Collection"@),
        ("添加"@, "Add"@),
        ("设置"@, "Setting"@),
        ("没有数据"@, "No Data"@),
        ("没有消息"@, "No Message"@),
    ]
}

/// Whether an entry of the dictionary is the entry of a given word.
pub open spec fn is_word(text: Seq<char>) -> spec_fn((Seq<char>, Seq<char>)) -> bool {
    |p: (Seq<char>, Seq<char>)| p.0 == text
}

/// A text in the language of the user interface: the text itself in Chinese
/// and where the dictionary does not hold it, else its English.
pub open spec fn spec_tr(language: Seq<char>, text: Seq<char>) -> Seq<char> {
    let i = first_index(dictionary(), is_word(text));
    if language == "cn"@ || i >= dictionary().len() {
        text
    } else {
        dictionary()[i].1
    }
}

/// The entries of a list as plain values, in the list's order.
pub open spec fn word_views(words: Seq<(&'static str, &'static str)>) -> Seq<
    (Seq<char>, Seq<char>),
> {
    words.map_values(|p: (&'static str, &'static str)| (p.0@, p.1@))
}

/// The dictionary.
pub fn words() -> (r: Vec<(&'static str, &'static str)>)
    ensures
        word_views(r@) == dictionary(),
{
    let mut r: Vec<(&'static str, &'static str)> = Vec::new();
    r.push(("出错", "Error"));
    r.push(("原因", "Reason"));
    r.push(("取消", "Cancel"));
    r.push(("确认", "Confirm"));
    r.push(("编辑", "Edit"));
    r.push(("删除", "Delete"));
    r.push(("删除成功", "Delete success"));
    r.push(("删除失败", "Delete failed"));
    r.push(("添加成功", "Add success"));
    r.push(("添加失败", "Add failed"));
    r.push(("复制失败", "Copy failed"));
    r.push(("复制成功", "Copy success"));
    r.push(("清空失败", "Delete failed"));
    r.push(("清空成功", "Delete success"));
    r.push(("保存失败", "Save failed"));
    r.push(("保存成功", "Save success"));
    r.push(("重置成功", "Reset success"));
    r.push(("刷新成功", "Flush success"));
    r.push(("发送失败", "Send failed"));
    r.push(("下载成功", "Download success"));
    r.push(("下载失败", "Download failed"));
    r.push(("加载失败", "Load failed"));
    r.push(("密码错误", "Wrong password"));
    r.push(("创建账户成功", "Create account success"));
    r.push(("创建账户失败", "Create account failed"));
    r.push(("非法输入", "Invalid input"));
    r.push(("刷新...", "Refresh..."));
    r.push(("正在重试...", "Retrying..."));
    r.push(("正在下载...", "Downloading..."));
    r.push(("是否删除全部？", "Delete all entrys or not?"));
    r.push(("是否删除全部缓存？", "Delete all cache or not?"));
    r.push(("清除缓存失败", "Remove cache failed"));
    r.push(("清除缓存成功", "Remove cache success"));
    r.push(("界 面", "UI"));
    r.push(("同 步", "Sync"));
    r.push(("代 理", "Proxy"));
    r.push(("缓 存", "Cache"));
    r.push(("关 于", "About"));
    r.push(("帮 助", "Help"));
    r.push(("新建", "New"));
    r.push(("没有订阅", "No RSS"));
    r.push(("RSS名称和图标", "RSS name and icon"));
    r.push(("请输入RSS名称", "Please input RSS name"));
    r.push(("RSS源地址", "RSS URL"));
    r.push(("请输入RSS源地址", "Please input RSS URL"));
    r.push(("RSS源格式", "RSS format"));
    r.push(("已经Http启用代理", "Enabled Http proxy"));
    r.push(("未启Http用代理", "Disable Http proxy"));
    r.push(("已经Socks5启用代理", "Enabled Socks5 proxy"));
    r.push(("未启Socks5用代理", "Disable Socks5 proxy"));
    r.push(("已经收藏", "Star"));
    r.push(("未收藏", "Not star"));
    r.push(("图标库", "Icons"));
    r.push(("请选择条目", "Please select entry"));
    r.push(("字体大小", "Font size"));
    r.push(("字体样式", "Font family"));
    r.push(("选择语言", "Choose language"));
    r.push(("同步时间间隔(分钟)", "Sync time interval(minute)"));
    r.push(("请输入时间间隔", "Please input time interval"));
    r.push(("同步超时(秒)", "Sync timeout(second)"));
    r.push(("请输入同步超时", "Please input sync timeout"));
    r.push(("已经启用自动同步", "Enabled auto sync"));
    r.push(("未启用自动同步", "Disable auto sync"));
    r.push(("程序启动时，马上进行一次同步", "Starting sync once, when application starting"));
    r.push(("程序启动时，不马上进行一次同步", "Don't start sync, when application starting"));
    r.push(("代理地址", "Proxy address"));
    r.push(("代理端口", "Proxy port"));
    r.push(("警告", "Warning"));
    r.push(("订阅", "RSS"));
    r.push(("收藏夹", "Collection"));
    r.push(("添加", "Add"));
    r.push(("设置", "Setting"));
    r.push(("没有数据", "No Data"));
    r.push(("没有消息", "No Message"));
    assert(word_views(r@) =~= dictionary());
    r
}

/// A text of the user interface in a given language. The texts are written
/// in Chinese; for every other language than `cn` the English of the
/// dictionary is given, and the text itself where the dictionary does not
/// hold it.
pub fn tr(language: &str, text: &str) -> (r: String)
    ensures
        r@ == spec_tr(language@, text@),
{
    if str_eq(language, "cn") {
        return text.to_string();
    }
    let items = words();
    let mut i: usize = 0;
    while i < items.len()
        invariant
            i <= items.len(),
            language@ != "cn"@,
            word_views(items@) == dictionary(),
            forall|k: int| 0 <= k < i ==> items@[k].0@ != text@,
        decreases items.len() - i,
    {
        if str_eq(items[i].0, text) {
            proof {
                lemma_first_index_is(word_views(items@), is_word(text@), i as int);
                assert(word_views(items@)[i as int] == (items@[i as int].0@, items@[i as int].1@));
            }
            return items[i].1.to_string();
        }
        i = i + 1;
    }
    proof {
        lemma_first_index_is(word_views(items@), is_word(text@), i as int);
    }
    text.to_string()
}

} // verus!
