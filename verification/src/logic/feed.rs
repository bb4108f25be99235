//! Reading a feed document: RSS or Atom into one entry model.

use crate::db::entry::{entry_views, RssEntry, RssEntryView};
use crate::util::list::turned;
use crate::util::str::{
    chars_of, lowercase, slice_chars, str_eq, string_of, to_lowercase, trim, trimmed,
};
use ::rss::Channel;
use atom_syndication::{Feed, Text};
use vstd::prelude::*;

verus! {

/// What the parser keeps of one `<item>` of an RSS channel.
pub struct RssItem {
    pub link: Option<String>,
    pub title: Option<String>,
    pub author: Option<String>,
    pub pub_date: Option<String>,
    pub description: Option<String>,
    pub categories: Vec<String>,
}

/// What is kept of an RSS item, as plain values.
pub struct RssItemView {
    pub link: Option<Seq<char>>,
    pub title: Option<Seq<char>>,
    pub author: Option<Seq<char>>,
    pub pub_date: Option<Seq<char>>,
    pub description: Option<Seq<char>>,
    pub categories: Seq<Seq<char>>,
}

/// The text of an optional string.
pub open spec fn text_of(o: Option<String>) -> Option<Seq<char>> {
    match o {
        Some(s) => Some(s@),
        None => None,
    }
}

/// The texts of a list of strings.
pub open spec fn texts_of(v: Seq<String>) -> Seq<Seq<char>> {
    v.map_values(|s: String| s@)
}

impl View for RssItem {
    type V = RssItemView;

    open spec fn view(&self) -> RssItemView {
        RssItemView {
            link: text_of(self.link),
            title: text_of(self.title),
            author: text_of(self.author),
            pub_date: text_of(self.pub_date),
            description: text_of(self.description),
            categories: texts_of(self.categories@),
        }
    }
}

/// An Atom text construct.
pub struct AtomText {
    pub value: String,
    /// Whether the construct is of type `text`, rather than `html` or
    /// `xhtml`.
    pub is_text: bool,
}

/// An Atom text construct as plain values.
pub struct AtomTextView {
    pub value: Seq<char>,
    pub is_text: bool,
}

/// What the parser keeps of one `<entry>` of an Atom feed.
pub struct AtomItem {
    /// The `href` of each link, in document order.
    pub links: Vec<String>,
    pub title: String,
    pub published: Option<String>,
    /// The name of each author, in document order.
    pub authors: Vec<String>,
    pub summary: Option<AtomText>,
    /// The term of each category, in document order.
    pub categories: Vec<String>,
}

/// What is kept of an Atom entry, as plain values.
pub struct AtomItemView {
    pub links: Seq<Seq<char>>,
    pub title: Seq<char>,
    pub published: Option<Seq<char>>,
    pub authors: Seq<Seq<char>>,
    pub summary: Option<AtomTextView>,
    pub categories: Seq<Seq<char>>,
}

impl View for AtomItem {
    type V = AtomItemView;

    open spec fn view(&self) -> AtomItemView {
        AtomItemView {
            links: texts_of(self.links@),
            title: self.title@,
            published: text_of(self.published),
            authors: texts_of(self.authors@),
            summary: match self.summary {
                Some(t) => Some(AtomTextView { value: t.value@, is_text: t.is_text }),
                None => None,
            },
            categories: texts_of(self.categories@),
        }
    }
}

/// The items of a list as plain values, in the list's order.
pub open spec fn rss_item_views(items: Seq<RssItem>) -> Seq<RssItemView> {
    items.map_values(|i: RssItem| i@)
}

/// The entries of a list as plain values, in the list's order.
pub open spec fn atom_item_views(items: Seq<AtomItem>) -> Seq<AtomItemView> {
    items.map_values(|i: AtomItem| i@)
}

/// Why a document could not be read.
#[derive(Debug, PartialEq, Eq)]
pub enum ParseError {
    /// Not an RSS channel; the text is the reader's message.
    Rss(String),
    /// Not an Atom feed; the text is the reader's message.
    Atom(String),
    /// Neither an RSS channel nor an Atom feed.
    UnrecognizedFormat,
}

/// Why a document could not be read, as plain values.
pub enum ParseErrorView {
    Rss(Seq<char>),
    Atom(Seq<char>),
    UnrecognizedFormat,
}

impl View for ParseError {
    type V = ParseErrorView;

    open spec fn view(&self) -> ParseErrorView {
        match self {
            ParseError::Rss(d) => ParseErrorView::Rss(d@),
            ParseError::Atom(d) => ParseErrorView::Atom(d@),
            ParseError::UnrecognizedFormat => ParseErrorView::UnrecognizedFormat,
        }
    }
}

/// The items of an RSS document in document order, or the message of the
/// `rss` crate's reader where it refuses the document.
pub uninterp spec fn rss_document(content: Seq<u8>) -> Result<Seq<RssItemView>, Seq<char>>;

/// The entries of an Atom document in document order, or the message of the
/// `atom_syndication` crate's reader where it refuses the document.
pub uninterp spec fn atom_document(content: Seq<u8>) -> Result<Seq<AtomItemView>, Seq<char>>;

/// The plain text that `html2text` renders an HTML fragment to at a given
/// line width, or `None` where it gives up.
pub uninterp spec fn html_text(html: Seq<char>, width: usize) -> Option<Seq<char>>;

/// `rss::Channel::read_from` on a byte slice. On success the items of the
/// channel are handed out field by field, in document order; on failure the
/// error's `Display` text. Both are a function of the bytes alone.
#[verifier::external_body]
fn read_rss(content: &[u8]) -> (r: Result<Vec<RssItem>, String>)
    ensures
        match r {
            Ok(items) => rss_document(content@) == Ok::<Seq<RssItemView>, Seq<char>>(
                rss_item_views(items@),
            ),
            Err(e) => rss_document(content@) == Err::<Seq<RssItemView>, Seq<char>>(e@),
        },
{
    let channel = Channel::read_from(content).map_err(|e| e.to_string())?;
    Ok(channel.items.into_iter().map(|i| RssItem {
        link: i.link,
        title: i.title,
        author: i.author,
        pub_date: i.pub_date,
        description: i.description,
        categories: i.categories.into_iter().map(|c| c.name).collect()
    }).collect())
}

/// `atom_syndication::Feed::read_from` on a byte slice. On success the
/// entries of the feed are handed out field by field, in document order: the
/// publication time in chrono's `Display` form, and of a summary its text
/// and whether its type is the default one, `text` (found by comparing the
/// construct, its other fields cleared, with the default construct). On
/// failure the error's `Display` text is handed out. Both are a function of
/// the bytes alone.
#[verifier::external_body]
fn read_atom(content: &[u8]) -> (r: Result<Vec<AtomItem>, String>)
    ensures
        match r {
            Ok(items) => atom_document(content@) == Ok::<Seq<AtomItemView>, Seq<char>>(
                atom_item_views(items@),
            ),
            Err(e) => atom_document(content@) == Err::<Seq<AtomItemView>, Seq<char>>(e@),
        },
{
    let feed = Feed::read_from(content).map_err(|e| e.to_string())?;
    Ok(feed.entries.into_iter().map(|e| AtomItem {
        links: e.links.into_iter().map(|l| l.href).collect(),
        title: e.title.value,
        published: e.published.map(|d| d.to_string()),
        authors: e.authors.into_iter().map(|p| p.name).collect(),
        summary: e.summary.map(|s| AtomText {
            is_text: Text::default() == Text { value: String::new(), base: None, lang: None, ..s.clone() },
            value: s.value
        }),
        categories: e.categories.into_iter().map(|c| c.term).collect()
    }).collect())
}

/// `html2text`'s plain rendering of an HTML fragment, through
/// `Config::string_from_read`: the text, or `None` where the crate reports an
/// error. A function of the fragment and the width alone.
#[verifier::external_body]
fn html_to_text(html: &str, width: usize) -> (r: Option<String>)
    ensures
        text_of(r) == html_text(html@, width),
{
    ::html2text::config::plain().string_from_read(html.as_bytes(), width).ok()
}

/// `chrono`'s `Display` form of the default `DateTime<FixedOffset>`, which
/// is the first second of 1970 at offset zero.
#[verifier::external_body]
fn epoch_text() -> (r: String)
    ensures
        r@ == "1970-01-01 00:00:00 +00:00"@,
{
    ::atom_syndication::FixedDateTime::default().to_string()
}

/// The marker that ends every summary.
pub open spec fn ellipsis() -> Seq<char> {
    seq!['.', '.', '.']
}

/// The first `n` characters of `s`, or all of `s` where it has no more.
pub open spec fn first_chars(s: Seq<char>, n: nat) -> Seq<char> {
    if s.len() > n {
        s.take(n as int)
    } else {
        s
    }
}

/// Whether a character takes more than one byte in UTF-8.
pub open spec fn is_wide(c: char) -> bool {
    c as u32 >= 128
}

/// Whether a text holds a character that takes more than one byte.
pub open spec fn has_wide(s: Seq<char>) -> bool {
    exists|i: int| 0 <= i < s.len() && is_wide(#[trigger] s[i])
}

/// A text cut to summary length, with the marker behind it: at most 100
/// characters, and at most 50 where one of those 100 is wide.
pub open spec fn cut_summary(text: Seq<char>) -> Seq<char> {
    let head = first_chars(text, 100);
    (if has_wide(head) {
        first_chars(head, 50)
    } else {
        head
    }) + ellipsis()
}

/// How long a summary gets: a text without a wide character among its first
/// 100 characters is cut to these, and a text with one is cut to its first
/// 50 characters. Either way the marker follows, so that no summary is
/// longer than 103 characters.
pub proof fn law_summary_is_cut(text: Seq<char>)
    ensures
        !has_wide(first_chars(text, 100)) ==> cut_summary(text) == first_chars(text, 100)
            + ellipsis(),
        has_wide(first_chars(text, 100)) ==> cut_summary(text) == first_chars(text, 50)
            + ellipsis(),
        cut_summary(text).len() <= 103,
{
    let head = first_chars(text, 100);
    assert(first_chars(head, 50) =~= first_chars(text, 50));
}

/// A text without its line feeds.
pub open spec fn without_newlines(s: Seq<char>) -> Seq<char> {
    s.filter(|c: char| c != '\n')
}

/// The plain text of a summary before it is cut: the trimmed source itself
/// where it is plain text, else its HTML rendering without line feeds, and
/// nothing where the rendering fails.
pub open spec fn summary_text(summary: Seq<char>, is_text: bool) -> Seq<char> {
    let source = trimmed(summary);
    if is_text {
        source
    } else {
        match html_text(source, usize::MAX) {
            Some(t) => without_newlines(t),
            None => Seq::empty(),
        }
    }
}

/// The summary shown for a description or an Atom summary.
pub open spec fn spec_parse_summary(summary: Seq<char>, is_text: bool) -> Seq<char> {
    cut_summary(summary_text(summary, is_text))
}

/// Whether one of the characters takes more than one byte in UTF-8.
fn has_wide_char(v: &Vec<char>) -> (r: bool)
    ensures
        r == has_wide(v@),
{
    let mut i: usize = 0;
    while i < v.len()
        invariant
            i <= v.len(),
            forall|k: int| 0 <= k < i ==> !is_wide(#[trigger] v@[k]),
        decreases v.len() - i,
    {
        if v[i] as u32 >= 128 {
            return true;
        }
        i = i + 1;
    }
    false
}

/// The characters without the line feeds.
fn strip_newlines(v: &Vec<char>) -> (r: Vec<char>)
    ensures
        r@ == without_newlines(v@),
{
    let mut out: Vec<char> = Vec::new();
    let mut i: usize = 0;
    while i < v.len()
        invariant
            i <= v.len(),
            out@ == without_newlines(v@.take(i as int)),
        decreases v.len() - i,
    {
        let c = v[i];
        proof {
            assert(v@.take(i + 1) == v@.take(i as int).push(v@[i as int]));
            v@.take(i as int).lemma_filter_push(v@[i as int], |c: char| c != '\n');
        }
        if c != '\n' {
            out.push(c);
        }
        i = i + 1;
    }
    assert(v@.take(v.len() as int) == v@);
    out
}

/// The first `n` characters, or all of them where there are no more.
fn first_of(v: Vec<char>, n: usize) -> (r: Vec<char>)
    ensures
        r@ == first_chars(v@, n as nat),
{
    if v.len() > n {
        slice_chars(&v, 0, n)
    } else {
        v
    }
}

/// The summary of an entry, from the description of an RSS item or the
/// summary of an Atom entry: its plain text, cut to at most 100 characters,
/// or to 50 where one of them takes more than one byte, and always followed
/// by the ellipsis.
pub fn parse_summary(summary: &str, is_text: bool) -> (r: String)
    ensures
        r@ == spec_parse_summary(summary@, is_text),
{
    let source = trim(summary);
    let text: Vec<char> = if is_text {
        chars_of(source)
    } else {
        match html_to_text(source, usize::MAX) {
            Some(t) => strip_newlines(&chars_of(t.as_str())),
            None => Vec::new(),
        }
    };
    assert(text@ == summary_text(summary@, is_text));
    let head = first_of(text, 100);
    let cut = if has_wide_char(&head) {
        first_of(head, 50)
    } else {
        head
    };
    let mut r = string_of(&cut);
    r.append("...");
    proof {
        reveal_strlit("...");
        assert("..."@ =~= ellipsis());
    }
    r
}

/// The parts with the separator between each two of them.
pub open spec fn joined(parts: Seq<Seq<char>>, sep: Seq<char>) -> Seq<char>
    decreases parts.len(),
{
    if parts.len() == 0 {
        Seq::empty()
    } else if parts.len() == 1 {
        parts[0]
    } else {
        joined(parts.drop_last(), sep) + sep + parts.last()
    }
}

/// Joins the parts, the separator between each two of them.
pub fn join(parts: &Vec<String>, sep: &str) -> (r: String)
    ensures
        r@ == joined(texts_of(parts@), sep@),
{
    let mut r = String::new();
    let mut i: usize = 0;
    while i < parts.len()
        invariant
            i <= parts.len(),
            r@ == joined(texts_of(parts@).take(i as int), sep@),
        decreases parts.len() - i,
    {
        proof {
            let all = texts_of(parts@);
            assert(all.take(i + 1).drop_last() == all.take(i as int));
            assert(all.take(i + 1).last() == parts@[i as int]@);
        }
        if i > 0 {
            r.append(sep);
        }
        r.append(parts[i].as_str());
        i = i + 1;
    }
    assert(texts_of(parts@).take(parts.len() as int) == texts_of(parts@));
    r
}

/// The text of an optional field, empty where it is absent.
pub open spec fn or_empty(o: Option<Seq<char>>) -> Seq<char> {
    match o {
        Some(s) => s,
        None => Seq::empty(),
    }
}

/// The entry that an RSS item stands for: its link, title, author and date
/// as they are, its description as a summary, and its categories joined by
/// commas. It belongs to the subscription `suuid`, has no identity of its own
/// yet, and is unread.
pub open spec fn rss_entry(suuid: Seq<char>, item: RssItemView) -> RssEntryView {
    RssEntryView {
        suuid,
        uuid: Seq::empty(),
        url: or_empty(item.link),
        title: or_empty(item.title),
        pub_date: or_empty(item.pub_date),
        tags: joined(item.categories, seq![',']),
        author: or_empty(item.author),
        summary: match item.description {
            Some(d) => spec_parse_summary(d, false),
            None => Seq::empty(),
        },
        is_read: false,
    }
}

/// The entry that an Atom entry stands for: the address of its first link,
/// its title, the names of its authors joined by `|`, its publication time
/// (the first second of 1970 where it has none), its summary, and the terms
/// of its categories joined by commas.
pub open spec fn atom_entry(suuid: Seq<char>, item: AtomItemView) -> RssEntryView {
    RssEntryView {
        suuid,
        uuid: Seq::empty(),
        url: if item.links.len() > 0 {
            item.links[0]
        } else {
            Seq::empty()
        },
        title: item.title,
        pub_date: match item.published {
            Some(p) => p,
            None => "1970-01-01 00:00:00 +00:00"@,
        },
        tags: joined(item.categories, seq![',']),
        author: joined(item.authors, seq!['|']),
        summary: match item.summary {
            Some(t) => spec_parse_summary(t.value, t.is_text),
            None => Seq::empty(),
        },
        is_read: false,
    }
}

/// Whether an entry has both an address and a title. One that lacks either
/// is dropped.
pub open spec fn is_complete(e: RssEntryView) -> bool {
    e.url.len() > 0 && e.title.len() > 0
}

/// The complete entries of an RSS document, in document order.
pub open spec fn rss_entries(suuid: Seq<char>, items: Seq<RssItemView>) -> Seq<RssEntryView> {
    items.map_values(|i: RssItemView| rss_entry(suuid, i)).filter(|e: RssEntryView| is_complete(e))
}

/// The complete entries of an Atom document, in document order.
pub open spec fn atom_entries(suuid: Seq<char>, items: Seq<AtomItemView>) -> Seq<RssEntryView> {
    items.map_values(|i: AtomItemView| atom_entry(suuid, i)).filter(
        |e: RssEntryView| is_complete(e),
    )
}

/// What reading a document as RSS gives.
pub open spec fn parsed_rss(suuid: Seq<char>, content: Seq<u8>) -> Result<
    Seq<RssEntryView>,
    ParseErrorView,
> {
    match rss_document(content) {
        Ok(items) => Ok(rss_entries(suuid, items)),
        Err(d) => Err(ParseErrorView::Rss(d)),
    }
}

/// What reading a document as Atom gives.
pub open spec fn parsed_atom(suuid: Seq<char>, content: Seq<u8>) -> Result<
    Seq<RssEntryView>,
    ParseErrorView,
> {
    match atom_document(content) {
        Ok(items) => Ok(atom_entries(suuid, items)),
        Err(d) => Err(ParseErrorView::Atom(d)),
    }
}

/// The text of an optional field, empty where it is absent.
fn text_or_default(o: &Option<String>) -> (r: String)
    ensures
        r@ == or_empty(text_of(*o)),
{
    match o {
        Some(s) => s.clone(),
        None => String::new(),
    }
}

/// The entry that an RSS item stands for.
fn entry_of_rss(suuid: &str, item: &RssItem) -> (e: RssEntry)
    ensures
        e@ == rss_entry(suuid@, item@),
{
    let summary = match &item.description {
        Some(d) => parse_summary(d.as_str(), false),
        None => String::new(),
    };
    proof {
        reveal_strlit(",");
        assert(","@ =~= seq![',']);
    }
    RssEntry {
        suuid: suuid.to_string(),
        uuid: String::new(),
        url: text_or_default(&item.link),
        title: text_or_default(&item.title),
        pub_date: text_or_default(&item.pub_date),
        tags: join(&item.categories, ","),
        author: text_or_default(&item.author),
        summary,
        is_read: false,
    }
}

/// The entry that an Atom entry stands for.
fn entry_of_atom(suuid: &str, item: &AtomItem) -> (e: RssEntry)
    ensures
        e@ == atom_entry(suuid@, item@),
{
    let url = if item.links.len() > 0 {
        item.links[0].clone()
    } else {
        String::new()
    };
    let pub_date = match &item.published {
        Some(p) => p.clone(),
        None => epoch_text(),
    };
    let summary = match &item.summary {
        Some(t) => parse_summary(t.value.as_str(), t.is_text),
        None => String::new(),
    };
    proof {
        reveal_strlit(",");
        reveal_strlit("|");
        assert(","@ =~= seq![',']);
        assert("|"@ =~= seq!['|']);
    }
    RssEntry {
        suuid: suuid.to_string(),
        uuid: String::new(),
        url,
        title: item.title.clone(),
        pub_date,
        tags: join(&item.categories, ","),
        author: join(&item.authors, "|"),
        summary,
        is_read: false,
    }
}

/// Reads an RSS document. Gives the entries of its items that have an
/// address and a title, in document order, each owned by `suuid`; or the
/// reader's message where the document is no RSS channel.
pub fn parse_rss(suuid: &str, content: &[u8]) -> (r: Result<Vec<RssEntry>, ParseError>)
    ensures
        match r {
            Ok(v) => parsed_rss(suuid@, content@) == Ok::<Seq<RssEntryView>, ParseErrorView>(
                entry_views(v@),
            ),
            Err(e) => parsed_rss(suuid@, content@) == Err::<Seq<RssEntryView>, ParseErrorView>(e@),
        },
{
    let items = match read_rss(content) {
        Ok(items) => items,
        Err(d) => {
            return Err(ParseError::Rss(d));
        },
    };
    let ghost views = rss_item_views(items@);
    let ghost make = |i: RssItemView| rss_entry(suuid@, i);
    let ghost keep = |e: RssEntryView| is_complete(e);
    let mut entrys: Vec<RssEntry> = Vec::new();
    let mut k: usize = 0;
    while k < items.len()
        invariant
            k <= items.len(),
            views == rss_item_views(items@),
            make == |i: RssItemView| rss_entry(suuid@, i),
            keep == |e: RssEntryView| is_complete(e),
            entry_views(entrys@) == views.take(k as int).map_values(make).filter(keep),
        decreases items.len() - k,
    {
        let entry = entry_of_rss(suuid, &items[k]);
        proof {
            let done = views.take(k as int);
            assert(views.take(k + 1) == done.push(views[k as int]));
            done.lemma_push_map_commute(make, views[k as int]);
            done.map_values(make).lemma_filter_push(make(views[k as int]), keep);
            entrys@.lemma_push_map_commute(|e: RssEntry| e@, entry);
        }
        if !(entry.url.as_str().is_empty() || entry.title.as_str().is_empty()) {
            entrys.push(entry);
        }
        k = k + 1;
    }
    assert(views.take(items.len() as int) == views);
    Ok(entrys)
}

/// Reads an Atom document. Gives the entries that have an address and a
/// title, in document order, each owned by `suuid`; or the reader's message
/// where the document is no Atom feed.
pub fn parse_atom(suuid: &str, content: &[u8]) -> (r: Result<Vec<RssEntry>, ParseError>)
    ensures
        match r {
            Ok(v) => parsed_atom(suuid@, content@) == Ok::<Seq<RssEntryView>, ParseErrorView>(
                entry_views(v@),
            ),
            Err(e) => parsed_atom(suuid@, content@) == Err::<Seq<RssEntryView>, ParseErrorView>(e@),
        },
{
    let items = match read_atom(content) {
        Ok(items) => items,
        Err(d) => {
            return Err(ParseError::Atom(d));
        },
    };
    let ghost views = atom_item_views(items@);
    let ghost make = |i: AtomItemView| atom_entry(suuid@, i);
    let ghost keep = |e: RssEntryView| is_complete(e);
    let mut entrys: Vec<RssEntry> = Vec::new();
    let mut k: usize = 0;
    while k < items.len()
        invariant
            k <= items.len(),
            views == atom_item_views(items@),
            make == |i: AtomItemView| atom_entry(suuid@, i),
            keep == |e: RssEntryView| is_complete(e),
            entry_views(entrys@) == views.take(k as int).map_values(make).filter(keep),
        decreases items.len() - k,
    {
        let entry = entry_of_atom(suuid, &items[k]);
        proof {
            let done = views.take(k as int);
            assert(views.take(k + 1) == done.push(views[k as int]));
            done.lemma_push_map_commute(make, views[k as int]);
            done.map_values(make).lemma_filter_push(make(views[k as int]), keep);
            entrys@.lemma_push_map_commute(|e: RssEntry| e@, entry);
        }
        if !(entry.url.as_str().is_empty() || entry.title.as_str().is_empty()) {
            entrys.push(entry);
        }
        k = k + 1;
    }
    assert(views.take(items.len() as int) == views);
    Ok(entrys)
}

/// The format that a document is read as.
#[derive(Debug, PartialEq, Eq, Clone, Copy)]
pub enum FeedFormat {
    /// RSS first, and Atom where that fails.
    Auto,
    Rss,
    Atom,
}

/// The format that a hint names: `rss` or `atom` in any case of letters, and
/// `Auto` for every other text.
pub open spec fn spec_feed_format(hint: Seq<char>) -> FeedFormat {
    if lowercase(hint) == "rss"@ {
        FeedFormat::Rss
    } else if lowercase(hint) == "atom"@ {
        FeedFormat::Atom
    } else {
        FeedFormat::Auto
    }
}

/// The format that a hint names.
pub fn feed_format(hint: &str) -> (r: FeedFormat)
    ensures
        r == spec_feed_format(hint@),
{
    let lower = to_lowercase(hint);
    if str_eq(lower.as_str(), "rss") {
        FeedFormat::Rss
    } else if str_eq(lower.as_str(), "atom") {
        FeedFormat::Atom
    } else {
        FeedFormat::Auto
    }
}

/// The result with its entries in the opposite order.
pub open spec fn reversed_result(r: Result<Seq<RssEntryView>, ParseErrorView>) -> Result<
    Seq<RssEntryView>,
    ParseErrorView,
> {
    match r {
        Ok(v) => Ok(v.reverse()),
        Err(e) => Err(e),
    }
}

/// What reading a document in a given format gives: the complete entries,
/// the last of the document first. `Auto` reads it as RSS, as Atom where
/// that fails, and reports an unrecognized format where both fail.
pub open spec fn parsed(suuid: Seq<char>, format: FeedFormat, content: Seq<u8>) -> Result<
    Seq<RssEntryView>,
    ParseErrorView,
> {
    match format {
        FeedFormat::Rss => reversed_result(parsed_rss(suuid, content)),
        FeedFormat::Atom => reversed_result(parsed_atom(suuid, content)),
        FeedFormat::Auto => if parsed_rss(suuid, content) is Ok {
            reversed_result(parsed_rss(suuid, content))
        } else if parsed_atom(suuid, content) is Ok {
            reversed_result(parsed_atom(suuid, content))
        } else {
            Err(ParseErrorView::UnrecognizedFormat)
        },
    }
}

/// The entries in the opposite order.
pub fn reversed(entries: Vec<RssEntry>) -> (r: Vec<RssEntry>)
    ensures
        entry_views(r@) == entry_views(entries@).reverse(),
{
    let r = turned(entries);
    assert(entry_views(r@) =~= entry_views(entries@).reverse());
    r
}

/// Reads a feed document into entries owned by `suuid`. The hint names the
/// format; with no usable hint the document is read as RSS, and as Atom
/// where that fails. Only entries with an address and a title are kept, and
/// they come out in the opposite of document order, so that what the feed
/// lists last is taken up first.
pub fn parse(suuid: &str, format_hint: &str, content: &[u8]) -> (r: Result<
    Vec<RssEntry>,
    ParseError,
>)
    ensures
        match r {
            Ok(v) => parsed(suuid@, spec_feed_format(format_hint@), content@) == Ok::<
                Seq<RssEntryView>,
                ParseErrorView,
            >(entry_views(v@)),
            Err(e) => parsed(suuid@, spec_feed_format(format_hint@), content@) == Err::<
                Seq<RssEntryView>,
                ParseErrorView,
            >(e@),
        },
{
    let found = match feed_format(format_hint) {
        FeedFormat::Rss => parse_rss(suuid, content),
        FeedFormat::Atom => parse_atom(suuid, content),
        FeedFormat::Auto => match parse_rss(suuid, content) {
            Ok(v) => Ok(v),
            Err(_) => match parse_atom(suuid, content) {
                Ok(v) => Ok(v),
                Err(_) => Err(ParseError::UnrecognizedFormat),
            },
        },
    };
    match found {
        Ok(v) => Ok(reversed(v)),
        Err(e) => Err(e),
    }
}

/// Reading a document without naming its format gives what reading it under
/// its own format gives: the RSS reading of every document that is an RSS
/// channel, and the Atom reading of every other document that is an Atom
/// feed.
pub proof fn law_auto_agrees_with_the_format(suuid: Seq<char>, content: Seq<u8>)
    ensures
        rss_document(content) is Ok ==> parsed(suuid, FeedFormat::Auto, content) == parsed(
            suuid,
            FeedFormat::Rss,
            content,
        ),
        rss_document(content) is Err && atom_document(content) is Ok ==> parsed(
            suuid,
            FeedFormat::Auto,
            content,
        ) == parsed(suuid, FeedFormat::Atom, content),
{
}

} // verus!
