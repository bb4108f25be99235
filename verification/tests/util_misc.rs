use rssbox::config::data::Proxy;
use rssbox::util::crypto::md5_hex;
use rssbox::util::http::{headers, proxy_address, request_timeout, ProxyType};
use rssbox::util::list::turned;
use rssbox::util::time::local_now;
use rssbox::util::translator::{tr, words};

#[test]
fn md5_hex_is_the_upper_case_digest() {
    assert_eq!(md5_hex(""), "D41D8CD98F00B204E9800998ECF8427E");
    assert_eq!(md5_hex("abc"), "900150983CD24FB0D6963F7D28E17F72");
    assert_eq!(
        md5_hex("The quick brown fox jumps over the lazy dog"),
        "9E107D9D372BB6826BD81D3542A419D6"
    );
    assert_ne!(md5_hex("http://u1"), "http://u1");
}

#[test]
fn proxy_type_from_text() {
    assert_eq!(ProxyType::from("http"), ProxyType::Http);
    assert_eq!(ProxyType::from("Http"), ProxyType::Http);
    assert_eq!(ProxyType::from("SOCKS5"), ProxyType::Socks5);
    assert_eq!(ProxyType::from("Socks5"), ProxyType::Socks5);
    assert_eq!(ProxyType::from("Unknown"), ProxyType::Unknown);
    assert_eq!(ProxyType::from(""), ProxyType::Unknown);
    assert_eq!(ProxyType::from("https"), ProxyType::Unknown);
}

#[test]
fn proxy_address_is_built_from_the_settings() {
    let config = Proxy::default();
    assert_eq!(
        proxy_address(Some(ProxyType::Http), &config),
        Some("http://127.0.0.1:3128".to_string())
    );
    assert_eq!(
        proxy_address(Some(ProxyType::Socks5), &config),
        Some("socks5://127.0.0.1:1080".to_string())
    );
    assert_eq!(proxy_address(Some(ProxyType::Unknown), &config), None);
    assert_eq!(proxy_address(None, &config), None);
    let other = Proxy {
        http_url: "proxy.local".to_string(),
        http_port: 0,
        socks5_url: "::1".to_string(),
        socks5_port: 65535,
    };
    assert_eq!(
        proxy_address(Some(ProxyType::Http), &other),
        Some("http://proxy.local:0".to_string())
    );
    assert_eq!(
        proxy_address(Some(ProxyType::Socks5), &other),
        Some("socks5://::1:65535".to_string())
    );
}

#[test]
fn request_timeout_is_at_least_ten_seconds() {
    assert_eq!(request_timeout(15), 15);
    assert_eq!(request_timeout(10), 10);
    assert_eq!(request_timeout(9), 10);
    assert_eq!(request_timeout(0), 10);
    assert_eq!(request_timeout(-5), 10);
    assert_eq!(request_timeout(i64::MIN), 10);
    assert_eq!(request_timeout(i64::MAX), i64::MAX as u64);
}

#[test]
fn headers_are_those_of_a_browser() {
    let h = headers();
    assert_eq!(h.len(), 3);
    assert_eq!(h[0].name, "user-agent");
    assert!(h[0].value.starts_with("Mozilla/5.0"));
    assert_eq!(h[1].name, "accept");
    assert_eq!(h[1].value, "*/*");
    assert_eq!(h[2].name, "cache-control");
    assert_eq!(h[2].value, "no-cache");
}

#[test]
fn local_now_follows_the_format() {
    let time = local_now("%H:%M:%S");
    assert_eq!(time.len(), 8);
    assert_eq!(time.as_bytes()[2], b':');
    assert_eq!(time.as_bytes()[5], b':');
    let day = local_now("%Y-%m-%d %H:%M:%S");
    assert_eq!(day.len(), 19);
}

#[test]
fn tr_gives_the_english_of_the_dictionary() {
    assert_eq!(tr("en", "出错"), "Error");
    assert_eq!(tr("en", "删除成功"), "Delete success");
    assert_eq!(tr("en", "密码错误"), "Wrong password");
    assert_eq!(tr("en", "没有消息"), "No Message");
    assert_eq!(
        tr("en", "程序启动时，马上进行一次同步"),
        "Starting sync once, when application starting"
    );
    assert_eq!(tr("", "界 面"), "UI");
    assert_eq!(tr("de", "设置"), "Setting");
}

#[test]
fn tr_keeps_chinese_and_unknown_texts() {
    assert_eq!(tr("cn", "出错"), "出错");
    assert_eq!(tr("cn", "anything"), "anything");
    assert_eq!(tr("en", "不在词典里"), "不在词典里");
    assert_eq!(tr("en", ""), "");
    assert_eq!(tr("en", "Error"), "Error");
}

#[test]
fn the_dictionary_holds_each_word_once() {
    let all = words();
    assert_eq!(all.len(), 74);
    for (i, (word, _)) in all.iter().enumerate() {
        assert!(all.iter().skip(i + 1).all(|(other, _)| other != word));
    }
}

#[test]
fn turned_turns_a_list_round() {
    assert_eq!(turned(vec![1, 2, 3]), vec![3, 2, 1]);
    assert_eq!(turned(Vec::<u8>::new()), Vec::<u8>::new());
}
