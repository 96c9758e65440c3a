use vstd::prelude::*;

use scraper::{ElementRef, Html, Node, Selector};

use crate::text::{
    append_chars, chars_of, decimal, decimal_chars, eq_str, starts_with, starts_with_str, string_of,
    strs, trim, trim_chars,
};

verus! {

/// One node of a parsed HTML tree, in document order. An element carries its
/// name and the values of the attributes that the caller asked for, in the
/// order of the names asked for (`None` where the element lacks one).
#[derive(Debug, Clone)]
pub enum HtmlNode {
    Text(String),
    Element(String, Vec<Option<String>>),
    /// The document or fragment root, a comment, a doctype.
    Other,
}

/// The mathematical value of an [`HtmlNode`].
pub enum SpecHtmlNode {
    Text(Seq<char>),
    Element(Seq<char>, Seq<Option<Seq<char>>>),
    Other,
}

pub open spec fn opt_view(o: Option<String>) -> Option<Seq<char>> {
    match o {
        Some(s) => Some(s@),
        None => None,
    }
}

pub open spec fn node_view(n: HtmlNode) -> SpecHtmlNode {
    match n {
        HtmlNode::Text(t) => SpecHtmlNode::Text(t@),
        HtmlNode::Element(name, attrs) => SpecHtmlNode::Element(
            name@,
            attrs@.map_values(|a: Option<String>| opt_view(a)),
        ),
        HtmlNode::Other => SpecHtmlNode::Other,
    }
}

pub open spec fn nodes_view(ns: Seq<HtmlNode>) -> Seq<SpecHtmlNode> {
    ns.map_values(|n: HtmlNode| node_view(n))
}

/// The nodes of each of a sequence of subtrees.
pub open spec fn subtrees_view(ts: Seq<Vec<HtmlNode>>) -> Seq<Seq<SpecHtmlNode>> {
    ts.map_values(|t: Vec<HtmlNode>| nodes_view(t@))
}

/// What `scraper` makes of an HTML fragment: the nodes of its tree in
/// document order, elements with the attributes named by `attrs`.
pub uninterp spec fn fragment_nodes(raw: Seq<char>, attrs: Seq<Seq<char>>) -> Seq<SpecHtmlNode>;

/// Parses an HTML fragment with `Html::parse_fragment` and lists the
/// nodes of its tree in document order (`descendants` of the root). Nothing is
/// stated of how the parser builds the tree.
#[verifier::external_body]
pub(crate) fn parse_fragment_nodes(raw: &str, attrs: &Vec<String>) -> (r: Vec<HtmlNode>)
    ensures
        nodes_view(r@) == fragment_nodes(raw@, strs(attrs@)),
{
    let fragment = Html::parse_fragment(raw);
    fragment.tree.root().descendants().map(|node| match node.value() {
        Node::Text(t) => HtmlNode::Text(t.to_string()),
        Node::Element(e) => HtmlNode::Element(
            e.name().to_string(),
            attrs.iter().map(|a| e.attr(a).map(String::from)).collect(),
        ),
        _ => HtmlNode::Other,
    }).collect()
}

/// What selecting `css` in the HTML document `raw` gives with `scraper`: for
/// each matching element in document order, the nodes of its subtree (the
/// element first); `None` where `css` is not a valid selector.
pub uninterp spec fn selected_subtrees(raw: Seq<char>, css: Seq<char>, attrs: Seq<Seq<char>>) -> Option<
    Seq<Seq<SpecHtmlNode>>,
>;

/// Parses an HTML document with `Html::parse_document`, selects `css`
/// in it and lists, for each match, the nodes of its subtree in document order.
/// Nothing is stated of how the parser builds the tree or how the selector
/// matches.
#[verifier::external_body]
pub(crate) fn select_subtrees(raw: &str, css: &str, attrs: &Vec<String>) -> (r: Option<
    Vec<Vec<HtmlNode>>,
>)
    ensures
        match r {
            Some(v) => selected_subtrees(raw@, css@, strs(attrs@)) == Some(subtrees_view(v@)),
            None => selected_subtrees(raw@, css@, strs(attrs@)) is None,
        },
{
    let document = Html::parse_document(raw);
    let selector = Selector::parse(css).ok()?;
    Some(document.select(&selector).map(|el| el.descendants().map(|node| match node.value() {
        Node::Text(t) => HtmlNode::Text(t.to_string()),
        Node::Element(e) => HtmlNode::Element(
            e.name().to_string(),
            attrs.iter().map(|a| e.attr(a).map(String::from)).collect(),
        ),
        _ => HtmlNode::Other,
    }).collect()).collect())
}

/// The text content of a subtree: its text nodes joined (`ElementRef::text`).
pub open spec fn subtree_text(ns: Seq<SpecHtmlNode>) -> Seq<char>
    decreases ns.len(),
{
    if ns.len() == 0 {
        Seq::empty()
    } else {
        subtree_text(ns.drop_last()) + match ns.last() {
            SpecHtmlNode::Text(t) => t,
            _ => Seq::empty(),
        }
    }
}

/// The text content of a subtree.
pub fn text_of(ns: &Vec<HtmlNode>) -> (r: Vec<char>)
    ensures
        r@ == subtree_text(nodes_view(ns@)),
{
    let mut out: Vec<char> = Vec::new();
    let mut i: usize = 0;
    while i < ns.len()
        invariant
            i <= ns@.len(),
            out@ == subtree_text(nodes_view(ns@).take(i as int)),
        decreases ns@.len() - i,
    {
        proof {
            assert(nodes_view(ns@).take(i + 1).drop_last() =~= nodes_view(ns@).take(i as int));
        }
        match &ns[i] {
            HtmlNode::Text(t) => {
                let cs = chars_of(t.as_str());
                append_chars(&mut out, &cs);
            },
            _ => {},
        }
        i += 1;
    }
    assert(nodes_view(ns@).take(ns@.len() as int) =~= nodes_view(ns@));
    out
}

/// The value of the attribute at `k` of an element, if the node is one and has it.
pub open spec fn attr_at(n: SpecHtmlNode, k: int) -> Option<Seq<char>> {
    match n {
        SpecHtmlNode::Element(_, attrs) => if 0 <= k < attrs.len() {
            attrs[k]
        } else {
            None
        },
        _ => None,
    }
}

/// The value of the attribute at `k` of an element node, if it has it.
pub fn attr_of(n: &HtmlNode, k: usize) -> (r: Option<String>)
    ensures
        opt_view(r) == attr_at(node_view(*n), k as int),
{
    match n {
        HtmlNode::Element(_, attrs) => {
            if k < attrs.len() {
                match &attrs[k] {
                    Some(v) => Some(v.clone()),
                    None => None,
                }
            } else {
                None
            }
        },
        _ => None,
    }
}

/// One step of the plain-text rendering: text is kept, `<br>` is a newline,
/// `<img>` is `[图片]`, a `<p>` after some text starts a new paragraph.
pub open spec fn text_step(out: Seq<char>, n: SpecHtmlNode) -> Seq<char> {
    match n {
        SpecHtmlNode::Text(t) => out + t,
        SpecHtmlNode::Element(name, _) => if name == "br"@ {
            out.push('\n')
        } else if name == "img"@ {
            out + "[图片]"@
        } else if name == "p"@ && out.len() > 0 {
            out + "\n\n"@
        } else {
            out
        },
        SpecHtmlNode::Other => out,
    }
}

pub open spec fn text_fold(ns: Seq<SpecHtmlNode>) -> Seq<char>
    decreases ns.len(),
{
    if ns.len() == 0 {
        Seq::empty()
    } else {
        text_step(text_fold(ns.drop_last()), ns.last())
    }
}

/// The plain-text rendering of a node sequence, trimmed.
pub fn nodes_to_text(ns: &Vec<HtmlNode>) -> (r: Vec<char>)
    ensures
        r@ == trim(text_fold(nodes_view(ns@))),
{
    let mut out: Vec<char> = Vec::new();
    let mut i: usize = 0;
    while i < ns.len()
        invariant
            i <= ns@.len(),
            out@ == text_fold(nodes_view(ns@).take(i as int)),
        decreases ns@.len() - i,
    {
        proof {
            assert(nodes_view(ns@).take(i + 1).drop_last() =~= nodes_view(ns@).take(i as int));
        }
        match &ns[i] {
            HtmlNode::Text(t) => {
                let cs = chars_of(t.as_str());
                append_chars(&mut out, &cs);
            },
            HtmlNode::Element(name, _) => {
                let nm = chars_of(name.as_str());
                if eq_str(&nm, "br") {
                    out.push('\n');
                } else if eq_str(&nm, "img") {
                    let m = chars_of("[图片]");
                    append_chars(&mut out, &m);
                } else if eq_str(&nm, "p") && out.len() > 0 {
                    let m = chars_of("\n\n");
                    append_chars(&mut out, &m);
                }
            },
            HtmlNode::Other => {},
        }
        i += 1;
    }
    assert(nodes_view(ns@).take(ns@.len() as int) =~= nodes_view(ns@));
    trim_chars(&out)
}

/// Converts answer or comment HTML to plain terminal text: paragraphs are
/// separated by blank lines, `<br>` becomes a newline, `<img>` becomes
/// `[图片]`, other tags are dropped and their text kept.
pub fn to_text(html: &str) -> (r: String)
    ensures
        r@ == trim(text_fold(fragment_nodes(html@, Seq::empty()))),
{
    let no_attrs: Vec<String> = Vec::new();
    assert(strs(no_attrs@) =~= Seq::<Seq<char>>::empty());
    let ns = parse_fragment_nodes(html, &no_attrs);
    let cs = nodes_to_text(&ns);
    string_of(cs.as_slice())
}

/// The attributes an image URL is taken from, in order of preference.
pub open spec fn image_attrs() -> Seq<Seq<char>> {
    seq!["data-original"@, "data-actualsrc"@, "src"@]
}

/// The first present attribute value that starts with `http`.
pub open spec fn pick_http(vals: Seq<Option<Seq<char>>>) -> Option<Seq<char>>
    decreases vals.len(),
{
    if vals.len() == 0 {
        None
    } else {
        match vals[0] {
            Some(v) => if starts_with(v, "http"@) {
                Some(v)
            } else {
                pick_http(vals.drop_first())
            },
            None => pick_http(vals.drop_first()),
        }
    }
}

/// One step of the rendering that keeps images: an `<img>` with an http URL in
/// its image attributes adds the URL and the marker `【图N】`, N counting the
/// URLs from 1; the rest is as in [`text_step`], but an `<img>` without such
/// a URL adds nothing.
pub open spec fn image_text_step(acc: (Seq<char>, Seq<Seq<char>>), n: SpecHtmlNode) -> (
    Seq<char>,
    Seq<Seq<char>>,
) {
    let (out, urls) = acc;
    match n {
        SpecHtmlNode::Text(t) => (out + t, urls),
        SpecHtmlNode::Element(name, attrs) => if name == "br"@ {
            (out.push('\n'), urls)
        } else if name == "img"@ {
            match pick_http(attrs) {
                Some(u) => (out + "【图"@ + decimal((urls.len() + 1) as nat) + "】"@, urls.push(u)),
                None => (out, urls),
            }
        } else if name == "p"@ && out.len() > 0 {
            (out + "\n\n"@, urls)
        } else {
            (out, urls)
        },
        SpecHtmlNode::Other => (out, urls),
    }
}

pub open spec fn image_text_fold(ns: Seq<SpecHtmlNode>) -> (Seq<char>, Seq<Seq<char>>)
    decreases ns.len(),
{
    if ns.len() == 0 {
        (Seq::empty(), Seq::empty())
    } else {
        image_text_step(image_text_fold(ns.drop_last()), ns.last())
    }
}

fn first_http(attrs: &Vec<Option<String>>) -> (r: Option<String>)
    ensures
        opt_view(r) == pick_http(attrs@.map_values(|a: Option<String>| opt_view(a))),
{
    let ghost all = attrs@.map_values(|a: Option<String>| opt_view(a));
    let mut k: usize = 0;
    assert(all.subrange(0, all.len() as int) =~= all);
    while k < attrs.len()
        invariant
            k <= attrs@.len(),
            all == attrs@.map_values(|a: Option<String>| opt_view(a)),
            pick_http(all) == pick_http(all.subrange(k as int, all.len() as int)),
        decreases attrs@.len() - k,
    {
        let ghost rest = all.subrange(k as int, all.len() as int);
        assert(rest.drop_first() =~= all.subrange(k + 1, all.len() as int));
        match &attrs[k] {
            Some(v) => {
                let cs = chars_of(v.as_str());
                if starts_with_str(&cs, "http") {
                    return Some(v.clone());
                }
            },
            None => {},
        }
        k += 1;
    }
    None
}

/// Text with image markers and the image URLs of the nodes of `ns` from
/// position `from` on, whose elements carry the attributes of [`image_attrs`].
pub fn nodes_to_text_and_images(ns: &Vec<HtmlNode>, from: usize) -> (r: (Vec<char>, Vec<String>))
    requires
        from <= ns@.len(),
    ensures
        r.0@ == trim(image_text_fold(nodes_view(ns@).subrange(from as int, ns@.len() as int)).0),
        strs(r.1@) == image_text_fold(nodes_view(ns@).subrange(from as int, ns@.len() as int)).1,
{
    let ghost part = nodes_view(ns@).subrange(from as int, ns@.len() as int);
    let mut out: Vec<char> = Vec::new();
    let mut urls: Vec<String> = Vec::new();
    let mut i: usize = from;
    assert(part.take(0) =~= Seq::<SpecHtmlNode>::empty());
    while i < ns.len()
        invariant
            from <= i <= ns@.len(),
            part == nodes_view(ns@).subrange(from as int, ns@.len() as int),
            (out@, strs(urls@)) == image_text_fold(part.take(i - from)),
        decreases ns@.len() - i,
    {
        proof {
            assert(part.take(i - from + 1).drop_last() =~= part.take(i - from));
            assert(part.take(i - from + 1).last() == node_view(ns@[i as int]));
        }
        match &ns[i] {
            HtmlNode::Text(t) => {
                let cs = chars_of(t.as_str());
                append_chars(&mut out, &cs);
            },
            HtmlNode::Element(name, attrs) => {
                let nm = chars_of(name.as_str());
                if eq_str(&nm, "br") {
                    out.push('\n');
                } else if eq_str(&nm, "img") {
                    match first_http(attrs) {
                        Some(u) => {
                            let ghost before = strs(urls@);
                            urls.push(u);
                            assert(strs(urls@) =~= before.push(u@));
                            let open = chars_of("【图");
                            append_chars(&mut out, &open);
                            let digits = decimal_chars(urls.len() as u64);
                            append_chars(&mut out, &digits);
                            let close = chars_of("】");
                            append_chars(&mut out, &close);
                        },
                        None => {},
                    }
                } else if eq_str(&nm, "p") && out.len() > 0 {
                    let m = chars_of("\n\n");
                    append_chars(&mut out, &m);
                }
            },
            HtmlNode::Other => {},
        }
        i += 1;
    }
    assert(part.take(ns@.len() - from) =~= part);
    (trim_chars(&out), urls)
}

/// The attribute names an image URL is read from, as strings.
pub fn image_attr_names() -> (r: Vec<String>)
    ensures
        strs(r@) == image_attrs(),
{
    let mut r: Vec<String> = Vec::new();
    r.push(String::from_str("data-original"));
    r.push(String::from_str("data-actualsrc"));
    r.push(String::from_str("src"));
    assert(strs(r@) =~= image_attrs());
    r
}

/// Converts answer HTML to text with `【图N】` image markers (N from 1) and the
/// image URLs: an image's URL is the first of `data-original`,
/// `data-actualsrc` and `src` that starts with `http`; an image without one
/// is dropped.
pub fn to_text_and_images(html: &str) -> (r: (String, Vec<String>))
    ensures
        r.0@ == trim(image_text_fold(fragment_nodes(html@, image_attrs())).0),
        strs(r.1@) == image_text_fold(fragment_nodes(html@, image_attrs())).1,
{
    let names = image_attr_names();
    let ns = parse_fragment_nodes(html, &names);
    let (cs, urls) = nodes_to_text_and_images(&ns, 0);
    assert(nodes_view(ns@).subrange(0, ns@.len() as int) =~= nodes_view(ns@));
    (string_of(cs.as_slice()), urls)
}

/// What selecting `outer` in the HTML document `raw` and then `inner` within
/// each match gives with `scraper`: for each outer match in document order,
/// the nodes of its subtree and those of the first inner match, if any;
/// `None` where a selector is not valid.
pub uninterp spec fn selected_nested(
    raw: Seq<char>,
    outer: Seq<char>,
    inner: Seq<char>,
    attrs: Seq<Seq<char>>,
) -> Option<Seq<(Seq<SpecHtmlNode>, Option<Seq<SpecHtmlNode>>)>>;

pub open spec fn nested_view(v: Seq<(Vec<HtmlNode>, Option<Vec<HtmlNode>>)>) -> Seq<
    (Seq<SpecHtmlNode>, Option<Seq<SpecHtmlNode>>),
> {
    v.map_values(
        |p: (Vec<HtmlNode>, Option<Vec<HtmlNode>>)|
            (
                nodes_view(p.0@),
                match p.1 {
                    Some(t) => Some(nodes_view(t@)),
                    None => None,
                },
            ),
    )
}

/// Parses an HTML document with `scraper`, selects `outer`, and within each
/// match selects `inner` (`ElementRef::select`), keeping the first inner
/// match. Nothing is stated of how the parser builds the tree or how the
/// selectors match.
#[verifier::external_body]
pub(crate) fn select_nested(raw: &str, outer: &str, inner: &str, attrs: &Vec<String>) -> (r: Option<
    Vec<(Vec<HtmlNode>, Option<Vec<HtmlNode>>)>,
>)
    ensures
        match r {
            Some(v) => selected_nested(raw@, outer@, inner@, strs(attrs@)) == Some(nested_view(v@)),
            None => selected_nested(raw@, outer@, inner@, strs(attrs@)) is None,
        },
{
    let (outer, inner) = (Selector::parse(outer).ok()?, Selector::parse(inner).ok()?);
    let nodes = |el: ElementRef| el.descendants().map(|n| match n.value() {
        Node::Text(t) => HtmlNode::Text(t.to_string()),
        Node::Element(e) => HtmlNode::Element(e.name().into(), attrs.iter().map(|a| e.attr(a).map(Into::into)).collect()),
        _ => HtmlNode::Other,
    }).collect();
    Some(Html::parse_document(raw).select(&outer).map(|el| (nodes(el), el.select(&inner).next().map(nodes))).collect())
}

/// What `scraper` gives for the elements that `css` selects in the document
/// `raw`: the inner HTML of each, in document order; `None` where `css` is not
/// a valid selector. The crate is built with its `deterministic` feature, which
/// keeps each element's attributes in source order, so the HTML written back
/// depends on the document and the selector alone.
pub uninterp spec fn selected_inner_html(raw: Seq<char>, css: Seq<char>) -> Option<Seq<Seq<char>>>;

/// Parses an HTML document with `Html::parse_document`, selects `css` in it
/// and gives the `inner_html` of each match (attributes written in source
/// order, see [`selected_inner_html`]). Nothing is stated of how the parser
/// builds the tree, how the selector matches or how HTML is written back.
#[verifier::external_body]
pub(crate) fn select_inner_html(raw: &str, css: &str) -> (r: Option<Vec<String>>)
    ensures
        match r {
            Some(v) => selected_inner_html(raw@, css@) == Some(strs(v@)),
            None => selected_inner_html(raw@, css@) is None,
        },
{
    let sel = Selector::parse(css).ok()?;
    let mut out: Vec<String> = Vec::new();
    for el in Html::parse_document(raw).select(&sel) {
        out.push(el.inner_html());
    }
    Some(out)
}

/// The inner HTML of the first element of the document `raw` that `css`
/// selects; empty when none is.
pub open spec fn first_inner_html(raw: Seq<char>, css: Seq<char>) -> Seq<char> {
    match selected_inner_html(raw, css) {
        Some(hs) => if hs.len() > 0 {
            hs[0]
        } else {
            Seq::empty()
        },
        None => Seq::empty(),
    }
}

/// The inner HTML of the first element of a document that `css` selects.
pub fn first_match_inner_html(raw: &str, css: &str) -> (r: String)
    ensures
        r@ == first_inner_html(raw@, css@),
{
    match select_inner_html(raw, css) {
        Some(hs) => {
            if hs.len() > 0 {
                hs[0].clone()
            } else {
                String::new()
            }
        },
        None => String::new(),
    }
}

/// The text (trimmed, with image markers) and image URLs of the inner HTML of
/// the first element of the document `raw` that `css` selects (of the empty
/// text when none is).
pub open spec fn first_match_content(raw: Seq<char>, css: Seq<char>) -> (Seq<char>, Seq<Seq<char>>) {
    let (t, imgs) = image_text_fold(fragment_nodes(first_inner_html(raw, css), image_attrs()));
    (trim(t), imgs)
}

/// The text and images inside the first element of a document that `css`
/// selects.
pub fn first_match_text_and_images(raw: &str, css: &str) -> (r: (String, Vec<String>))
    ensures
        r.0@ == first_match_content(raw@, css@).0,
        strs(r.1@) == first_match_content(raw@, css@).1,
{
    let inner = first_match_inner_html(raw, css);
    to_text_and_images(inner.as_str())
}

/// What selecting `css` in the HTML fragment `raw` gives with `scraper`: for
/// each matching element in document order, the nodes of its subtree (the
/// element first); `None` where `css` is not a valid selector.
pub uninterp spec fn selected_fragment_subtrees(raw: Seq<char>, css: Seq<char>, attrs: Seq<Seq<char>>) -> Option<
    Seq<Seq<SpecHtmlNode>>,
>;

/// Parses an HTML fragment with `Html::parse_fragment`, selects
/// `css` in it and lists, for each match, the nodes of its subtree in
/// document order. Nothing is stated of how the parser builds the tree or how
/// the selector matches.
#[verifier::external_body]
pub(crate) fn select_fragment_subtrees(raw: &str, css: &str, attrs: &Vec<String>) -> (r: Option<
    Vec<Vec<HtmlNode>>,
>)
    ensures
        match r {
            Some(v) => selected_fragment_subtrees(raw@, css@, strs(attrs@)) == Some(subtrees_view(v@)),
            None => selected_fragment_subtrees(raw@, css@, strs(attrs@)) is None,
        },
{
    let fragment = Html::parse_fragment(raw);
    let selector = Selector::parse(css).ok()?;
    Some(fragment.select(&selector).map(|el| el.descendants().map(|node| match node.value() {
        Node::Text(t) => HtmlNode::Text(t.to_string()),
        Node::Element(e) => HtmlNode::Element(
            e.name().to_string(),
            attrs.iter().map(|a| e.attr(a).map(String::from)).collect(),
        ),
        _ => HtmlNode::Other,
    }).collect()).collect())
}

} // verus!
