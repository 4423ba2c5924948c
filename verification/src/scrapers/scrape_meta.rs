//! Assembling the embed of a post from its page, including the conversion of
//! the HTML of its preview paragraph into Discord-ready text.

use vstd::prelude::*;
use vstd::utf8::encode_utf8;
use crate::embed::{escape_spaces, EmbedData, EMPTY_IMG};
use crate::error::{NewsError, NewsErrorView};
use crate::scrapers::scraper_resources::html_util::{
    css_selector_valid, format_selector, opt_view, select_attribute, select_attributes,
    select_first, select_inner_html, selected_attributes, selected_inner_html,
    spec_select_attribute, spec_select_first, Page,
};
use crate::scrapers::scraper_resources::resources::ScrapeType;
use crate::webhook_handler::string_views;
use crate::text::{
    count_char, find_from, lemma_count_add, lemma_count_remove, lemma_count_replace_first, lemma_count_zero,
    lemma_find_from, lemma_pieces_lack, occurs_at, split_from,
    append_chars, chars_of, contains_chars, contains_seq, remove_all, remove_all_chars,
    replace_first, replace_first_chars, split_chars, split_seq, string_of, sub_chars_all, views,
};

verus! {

/// Marks, in the text being built, where a link stood.
pub const SPECIAL_DELIM: char = '\u{1F986}';

/// The text that starts the target of an anchor.
pub open spec fn href_marker() -> Seq<char> {
    "href=\""@
}

/// The text that ends the target of an anchor and starts its label.
pub open spec fn label_marker() -> Seq<char> {
    "\">"@
}

/// The text that closes an anchor.
pub open spec fn anchor_close() -> Seq<char> {
    "</a>"@
}

/// The (label, target) of the link in one piece of the HTML cut at `href="`:
/// the piece must mention `https` and hold exactly one `">`; the target is
/// what precedes it, the label what follows it up to `</a>`.
pub open spec fn link_of(item: Seq<char>) -> Option<(Seq<char>, Seq<char>)> {
    if !contains_seq(item, "https"@) {
        None
    } else {
        let parts = split_seq(item, label_marker());
        if parts.len() != 2 {
            None
        } else {
            Some((split_seq(parts[1], anchor_close())[0], parts[0]))
        }
    }
}

/// The links found in the pieces, in order.
pub open spec fn extract_links(pieces: Seq<Seq<char>>) -> Seq<(Seq<char>, Seq<char>)>
    decreases pieces.len(),
{
    if pieces.len() == 0 {
        seq![]
    } else {
        let rest = extract_links(pieces.drop_last());
        match link_of(pieces.last()) {
            Some(l) => rest.push(l),
            None => rest,
        }
    }
}

/// The text kept from the first `n` characters of `h`, and whether the scan
/// is inside a tag after them. Characters inside tags are dropped; `>` ends a
/// tag; `<` starts one, and when the next character is `a` it leaves the
/// link marker and a space in the text.
pub open spec fn strip_prefix(h: Seq<char>, n: nat) -> (Seq<char>, bool)
    decreases n,
{
    if n == 0 {
        (seq![], false)
    } else {
        let (acc, in_tag) = strip_prefix(h, (n - 1) as nat);
        let c = h[n - 1];
        if c == '>' {
            (acc, false)
        } else if c == '<' {
            if n < h.len() && h[n as int] == 'a' {
                (acc + seq![SPECIAL_DELIM, ' '], true)
            } else {
                (acc, true)
            }
        } else if in_tag {
            (acc, true)
        } else {
            (acc.push(c), false)
        }
    }
}

/// The text of `h` with its tags dropped and its anchors marked.
pub open spec fn strip_tags(h: Seq<char>) -> Seq<char> {
    strip_prefix(h, h.len()).0
}

/// The markdown form `[label](target)` of a link.
pub open spec fn link_markdown(label: Seq<char>, target: Seq<char>) -> Seq<char> {
    seq!['['] + label + seq![']', '('] + target + seq![')']
}

/// The text after applying the links in order: each removes every
/// occurrence of its label, then replaces the first link marker by its
/// markdown form.
pub open spec fn apply_links(s: Seq<char>, links: Seq<(Seq<char>, Seq<char>)>) -> Seq<char>
    decreases links.len(),
{
    if links.len() == 0 {
        s
    } else {
        let t = apply_links(s, links.drop_last());
        let l = links.last();
        replace_first(remove_all(t, l.0), SPECIAL_DELIM, link_markdown(l.0, l.1))
    }
}

/// The Discord-ready text of an HTML paragraph.
pub open spec fn spec_sanitize_html(h: Seq<char>) -> Seq<char> {
    apply_links(strip_tags(h), extract_links(split_seq(h, href_marker())))
}

/// The views of a list of (label, target) pairs.
pub open spec fn link_views(v: Seq<(Vec<char>, Vec<char>)>) -> Seq<(Seq<char>, Seq<char>)> {
    v.map_values(|p: (Vec<char>, Vec<char>)| (p.0@, p.1@))
}

/// The link held by one piece of the HTML, if any.
fn link_of_exec(item: &Vec<char>) -> (r: Option<(Vec<char>, Vec<char>)>)
    ensures
        match r {
            Some(p) => link_of(item@) == Some((p.0@, p.1@)),
            None => link_of(item@) is None,
        },
{
    let https = chars_of("https");
    if !contains_chars(item, &https) {
        return None;
    }
    let marker = chars_of("\">");
    proof {
        reveal_strlit("\">");
    }
    let parts = split_chars(item, &marker);
    if parts.len() != 2 {
        return None;
    }
    let close = chars_of("</a>");
    proof {
        reveal_strlit("</a>");
    }
    let label_parts = split_chars(&parts[1], &close);
    let label = sub_chars_all(&label_parts[0]);
    let target = sub_chars_all(&parts[0]);
    Some((label, target))
}

/// Drops the tags of `h` and marks its anchors.
fn strip_tags_exec(h: &Vec<char>) -> (r: Vec<char>)
    ensures
        r@ == strip_tags(h@),
{
    let mut out: Vec<char> = Vec::new();
    let mut in_tag = false;
    let mut i: usize = 0;
    while i < h.len()
        invariant
            i <= h.len(),
            (out@, in_tag) == strip_prefix(h@, i as nat),
        decreases h.len() - i,
    {
        let c = h[i];
        if c == '>' {
            in_tag = false;
        } else if c == '<' {
            if i + 1 < h.len() && h[i + 1] == 'a' {
                out.push(SPECIAL_DELIM);
                out.push(' ');
                assert(out@ =~= strip_prefix(h@, i as nat).0 + seq![SPECIAL_DELIM, ' ']);
            }
            in_tag = true;
        } else if !in_tag {
            out.push(c);
        }
        i = i + 1;
    }
    out
}

/// Builds the markdown form of a link.
fn link_markdown_exec(label: &Vec<char>, target: &Vec<char>) -> (r: Vec<char>)
    ensures
        r@ == link_markdown(label@, target@),
{
    let mut r: Vec<char> = Vec::new();
    r.push('[');
    append_chars(&mut r, label);
    r.push(']');
    r.push('(');
    append_chars(&mut r, target);
    r.push(')');
    assert(r@ =~= link_markdown(label@, target@));
    r
}

/// Builds a Discord-ready text from an HTML paragraph: tags are dropped and
/// anchors become markdown links.
pub fn sanitize_html(html: &str) -> (r: String)
    ensures
        r@ == spec_sanitize_html(html@),
{
    let h = chars_of(html);
    let marker = chars_of("href=\"");
    proof {
        reveal_strlit("href=\"");
    }
    let pieces = split_chars(&h, &marker);
    let mut links: Vec<(Vec<char>, Vec<char>)> = Vec::new();
    let mut i: usize = 0;
    while i < pieces.len()
        invariant
            i <= pieces.len(),
            link_views(links@) == extract_links(views(pieces@).take(i as int)),
        decreases pieces.len() - i,
    {
        let ghost taken = views(pieces@).take(i as int);
        assert(views(pieces@).take(i + 1).drop_last() =~= taken);
        assert(views(pieces@).take(i + 1).last() == pieces@[i as int]@);
        match link_of_exec(&pieces[i]) {
            Some(p) => {
                links.push(p);
                assert(link_views(links@) =~= extract_links(taken).push((p.0@, p.1@)));
            },
            None => {},
        }
        i = i + 1;
    }
    assert(views(pieces@).take(pieces.len() as int) =~= views(pieces@));
    let stripped = strip_tags_exec(&h);
    let mut text = stripped;
    let mut k: usize = 0;
    while k < links.len()
        invariant
            k <= links.len(),
            text@ == apply_links(strip_tags(h@), link_views(links@).take(k as int)),
        decreases links.len() - k,
    {
        assert(link_views(links@).take(k + 1).drop_last() =~= link_views(links@).take(k as int));
        let removed = remove_all_chars(&text, &links[k].0);
        let md = link_markdown_exec(&links[k].0, &links[k].1);
        text = replace_first_chars(&removed, SPECIAL_DELIM, &md);
        k = k + 1;
    }
    assert(link_views(links@).take(links.len() as int) =~= link_views(links@));
    string_of(&text)
}

/// The number of places, among the first `n` characters of `h`, where an
/// anchor opens: a `<` followed by `a`.
pub open spec fn anchor_opens_before(h: Seq<char>, n: nat) -> nat
    decreases n,
{
    if n == 0 {
        0
    } else {
        anchor_opens_before(h, (n - 1) as nat) + (if h[n - 1] == '<' && n < h.len() && h[n as int] == 'a' {
            1nat
        } else {
            0nat
        })
    }
}

/// The number of places in `h` where an anchor opens.
pub open spec fn anchor_opens(h: Seq<char>) -> nat {
    anchor_opens_before(h, h.len())
}

/// Whether a piece of the HTML cut at `href="` holds a link.
pub open spec fn is_link_piece() -> spec_fn(Seq<char>) -> bool {
    |p: Seq<char>| link_of(p) is Some
}

/// The number of links of `h`: the pieces, cut at `href="`, that hold one.
pub open spec fn link_count(h: Seq<char>) -> nat {
    split_seq(h, href_marker()).filter(is_link_piece()).len()
}

proof fn lemma_strip_count(h: Seq<char>, n: nat)
    requires
        n <= h.len(),
        !h.contains(SPECIAL_DELIM),
    ensures
        count_char(strip_prefix(h, n).0, SPECIAL_DELIM) == anchor_opens_before(h, n),
    decreases n,
{
    if n > 0 {
        lemma_strip_count(h, (n - 1) as nat);
        let (acc, in_tag) = strip_prefix(h, (n - 1) as nat);
        let c = h[n - 1];
        assert(c != SPECIAL_DELIM);
        if c == '<' && n < h.len() && h[n as int] == 'a' {
            let mark = seq![SPECIAL_DELIM, ' '];
            lemma_count_add(acc, mark, SPECIAL_DELIM);
            assert(mark.drop_last() =~= seq![SPECIAL_DELIM]);
            assert(mark.last() == ' ');
            assert(seq![SPECIAL_DELIM].last() == SPECIAL_DELIM);
            assert(seq![SPECIAL_DELIM].drop_last() =~= Seq::<char>::empty());
            assert(count_char(Seq::<char>::empty(), SPECIAL_DELIM) == 0);
            assert(count_char(seq![SPECIAL_DELIM], SPECIAL_DELIM) == 1);
            assert(' ' != SPECIAL_DELIM);
            assert(count_char(mark, SPECIAL_DELIM) == count_char(mark.drop_last(), SPECIAL_DELIM));
            assert(count_char(mark, SPECIAL_DELIM) == 1);
        } else if c != '>' && c != '<' && !in_tag {
            assert(acc.push(c).drop_last() =~= acc);
        }
    }
}

proof fn lemma_link_count(pieces: Seq<Seq<char>>)
    ensures
        extract_links(pieces).len() == pieces.filter(is_link_piece()).len(),
    decreases pieces.len(),
{
    reveal(Seq::filter);
    if pieces.len() > 0 {
        lemma_link_count(pieces.drop_last());
    }
}

proof fn lemma_links_lack_marker(pieces: Seq<Seq<char>>)
    requires
        forall|k: int| 0 <= k < pieces.len() ==> !(#[trigger] pieces[k]).contains(SPECIAL_DELIM),
    ensures
        forall|k: int|
            0 <= k < extract_links(pieces).len() ==> !(#[trigger] extract_links(pieces)[k]).0.contains(SPECIAL_DELIM)
                && !extract_links(pieces)[k].1.contains(SPECIAL_DELIM),
    decreases pieces.len(),
{
    if pieces.len() > 0 {
        let rest = pieces.drop_last();
        assert forall|k: int| 0 <= k < rest.len() implies !(#[trigger] rest[k]).contains(SPECIAL_DELIM) by {
            assert(rest[k] == pieces[k]);
        }
        lemma_links_lack_marker(rest);
        let item = pieces.last();
        assert(!item.contains(SPECIAL_DELIM));
        if let Some(l) = link_of(item) {
            let parts = split_seq(item, label_marker());
            lemma_pieces_lack(item, label_marker(), 0, SPECIAL_DELIM);
            assert(!parts[0].contains(SPECIAL_DELIM));
            assert(!parts[1].contains(SPECIAL_DELIM));
            lemma_pieces_lack(parts[1], anchor_close(), 0, SPECIAL_DELIM);
            assert(!split_seq(parts[1], anchor_close())[0].contains(SPECIAL_DELIM));
        }
        let before = extract_links(rest);
        let all = extract_links(pieces);
        assert forall|k: int| 0 <= k < all.len() implies !(#[trigger] all[k]).0.contains(SPECIAL_DELIM)
            && !all[k].1.contains(SPECIAL_DELIM) by {
            if k < before.len() {
                assert(all[k] == before[k]);
            } else {
                assert(all[k] == link_of(item)->0);
            }
        }
    }
}

proof fn lemma_markdown_lacks_marker(label: Seq<char>, target: Seq<char>)
    requires
        !label.contains(SPECIAL_DELIM),
        !target.contains(SPECIAL_DELIM),
    ensures
        !link_markdown(label, target).contains(SPECIAL_DELIM),
{
    let md = link_markdown(label, target);
    assert forall|i: int| 0 <= i < md.len() implies md[i] != SPECIAL_DELIM by {
        if 1 <= i < 1 + label.len() {
            assert(md[i] == label[i - 1]);
        } else if 3 + label.len() <= i < 3 + label.len() + target.len() {
            assert(md[i] == target[i - 3 - label.len()]);
        }
    }
}

proof fn lemma_apply_links_count(s: Seq<char>, links: Seq<(Seq<char>, Seq<char>)>)
    requires
        forall|k: int|
            0 <= k < links.len() ==> !(#[trigger] links[k]).0.contains(SPECIAL_DELIM) && !links[k].1.contains(
                SPECIAL_DELIM,
            ),
    ensures
        count_char(apply_links(s, links), SPECIAL_DELIM) == (if links.len() <= count_char(s, SPECIAL_DELIM) {
            (count_char(s, SPECIAL_DELIM) - links.len()) as nat
        } else {
            0nat
        }),
    decreases links.len(),
{
    if links.len() > 0 {
        let rest = links.drop_last();
        assert forall|k: int| 0 <= k < rest.len() implies !(#[trigger] rest[k]).0.contains(SPECIAL_DELIM)
            && !rest[k].1.contains(SPECIAL_DELIM) by {
            assert(rest[k] == links[k]);
        }
        lemma_apply_links_count(s, rest);
        let t = apply_links(s, rest);
        let l = links.last();
        assert(l == links[links.len() - 1]);
        lemma_count_remove(t, l.0, 0, SPECIAL_DELIM);
        assert(t.subrange(0, t.len() as int) =~= t);
        lemma_markdown_lacks_marker(l.0, l.1);
        lemma_count_replace_first(remove_all(t, l.0), SPECIAL_DELIM, link_markdown(l.0, l.1));
    }
}

/// Replacing the first mark of a text that holds one puts the replacement in.
proof fn lemma_replace_first_inserts(u: Seq<char>, to: Seq<char>)
    requires
        u.contains(SPECIAL_DELIM),
    ensures
        contains_seq(replace_first(u, SPECIAL_DELIM, to), to),
{
    lemma_find_from(u, seq![SPECIAL_DELIM], 0);
    match find_from(u, seq![SPECIAL_DELIM], 0) {
        None => {
            let i = choose|i: int| 0 <= i < u.len() && u[i] == SPECIAL_DELIM;
            assert(u.subrange(i, i + 1) =~= seq![SPECIAL_DELIM]);
            assert(occurs_at(u, seq![SPECIAL_DELIM], i));
        },
        Some(i) => {
            let r = replace_first(u, SPECIAL_DELIM, to);
            assert(r.subrange(i, i + to.len()) =~= to);
            assert(occurs_at(r, to, i));
        },
    }
}

/// When a paragraph's anchors are at least as many as its links, the
/// markdown form of its last link appears in the text.
pub proof fn law_sanitize_keeps_last_link(h: Seq<char>)
    requires
        !h.contains(SPECIAL_DELIM),
        0 < link_count(h) <= anchor_opens(h),
    ensures
        ({
            let links = extract_links(split_seq(h, href_marker()));
            contains_seq(spec_sanitize_html(h), link_markdown(links.last().0, links.last().1))
        }),
{
    lemma_strip_count(h, h.len());
    let pieces = split_seq(h, href_marker());
    lemma_pieces_lack(h, href_marker(), 0, SPECIAL_DELIM);
    lemma_link_count(pieces);
    lemma_links_lack_marker(pieces);
    let links = extract_links(pieces);
    let rest = links.drop_last();
    assert forall|k: int| 0 <= k < rest.len() implies !(#[trigger] rest[k]).0.contains(SPECIAL_DELIM)
        && !rest[k].1.contains(SPECIAL_DELIM) by {
        assert(rest[k] == links[k]);
    }
    lemma_apply_links_count(strip_tags(h), rest);
    let t = apply_links(strip_tags(h), rest);
    let l = links.last();
    assert(l == links[links.len() - 1]);
    lemma_count_remove(t, l.0, 0, SPECIAL_DELIM);
    assert(t.subrange(0, t.len() as int) =~= t);
    lemma_count_zero(remove_all(t, l.0), SPECIAL_DELIM);
    lemma_replace_first_inserts(remove_all(t, l.0), link_markdown(l.0, l.1));
}

/// Every anchor of a paragraph whose target holds a link becomes a markdown
/// link: of the marks left where anchors opened, exactly one is replaced per
/// link found, so a paragraph whose anchors all hold links keeps no mark.
pub proof fn law_sanitize_links_every_anchor(h: Seq<char>)
    requires
        !h.contains(SPECIAL_DELIM),
    ensures
        count_char(spec_sanitize_html(h), SPECIAL_DELIM) == (if link_count(h) <= anchor_opens(h) {
            (anchor_opens(h) - link_count(h)) as nat
        } else {
            0nat
        }),
        anchor_opens(h) == link_count(h) ==> !spec_sanitize_html(h).contains(SPECIAL_DELIM),
{
    lemma_strip_count(h, h.len());
    let pieces = split_seq(h, href_marker());
    lemma_pieces_lack(h, href_marker(), 0, SPECIAL_DELIM);
    lemma_link_count(pieces);
    lemma_links_lack_marker(pieces);
    lemma_apply_links_count(strip_tags(h), extract_links(pieces));
    lemma_count_zero(spec_sanitize_html(h), SPECIAL_DELIM);
}

/// The first inner HTML, from index `i` on, that is at least 10 bytes long.
pub open spec fn first_long_html(htmls: Seq<Seq<char>>, i: int) -> Option<Seq<char>>
    decreases htmls.len() - i,
{
    if i < 0 || i >= htmls.len() {
        None
    } else if (encode_utf8(htmls[i]).len() as usize) >= 10 {
        Some(htmls[i])
    } else {
        first_long_html(htmls, i + 1)
    }
}

/// What `get_next_selector` gives: the inner HTML of the first element
/// matching `selector` that is long enough to describe the post.
pub open spec fn spec_get_next_selector(
    document: Seq<char>,
    selector: Seq<char>,
    scrape_type: ScrapeType,
    post_url: Seq<char>,
) -> Result<Seq<char>, NewsErrorView> {
    if !css_selector_valid(selector) {
        Err(NewsErrorView::BadSelector(selector))
    } else {
        match first_long_html(selected_inner_html(document, selector), 0) {
            Some(h) => Ok(h),
            None => Err(NewsErrorView::MetaCannotBeScraped(scrape_type, post_url)),
        }
    }
}

/// An inner HTML long enough to describe a post: at least 10 bytes.
pub open spec fn long_enough(html: Seq<char>) -> bool {
    (encode_utf8(html).len() as usize) >= 10
}

proof fn lemma_first_long_html(htmls: Seq<Seq<char>>, k: int)
    requires
        0 <= k,
    ensures
        first_long_html(htmls, k) matches Some(s) ==> exists|i: int|
            k <= i < htmls.len() && htmls[i] == s && long_enough(htmls[i]) && forall|j: int|
                k <= j < i ==> !long_enough(#[trigger] htmls[j]),
        first_long_html(htmls, k) is None ==> forall|j: int| k <= j < htmls.len() ==> !long_enough(#[trigger] htmls[j]),
    decreases htmls.len() - k,
{
    if k < htmls.len() && !long_enough(htmls[k]) {
        lemma_first_long_html(htmls, k + 1);
        if let Some(s) = first_long_html(htmls, k) {
            let i = choose|i: int|
                k + 1 <= i < htmls.len() && htmls[i] == s && long_enough(htmls[i]) && forall|j: int|
                    k + 1 <= j < i ==> !long_enough(#[trigger] htmls[j]);
            assert forall|j: int| k <= j < i implies !long_enough(#[trigger] htmls[j]) by {
                if j > k {
                }
            }
        }
    } else if k < htmls.len() {
        assert(forall|j: int| k <= j < k ==> !long_enough(#[trigger] htmls[j]));
    }
}

/// The description of a post is the first selected element (in the order of
/// the selection) whose inner HTML is long enough: every element before it
/// is shorter; and there is none only when every selected element is.
pub proof fn law_next_selector_is_first_long(
    document: Seq<char>,
    selector: Seq<char>,
    scrape_type: ScrapeType,
    post_url: Seq<char>,
)
    requires
        css_selector_valid(selector),
    ensures
        spec_get_next_selector(document, selector, scrape_type, post_url) matches Ok(s) ==> exists|i: int|
            0 <= i < selected_inner_html(document, selector).len()
                && selected_inner_html(document, selector)[i] == s
                && long_enough(s)
                && forall|j: int| 0 <= j < i ==> !long_enough(#[trigger] selected_inner_html(document, selector)[j]),
        spec_get_next_selector(document, selector, scrape_type, post_url) is Err <==> forall|j: int|
            0 <= j < selected_inner_html(document, selector).len() ==> !long_enough(
                #[trigger] selected_inner_html(document, selector)[j],
            ),
{
    let htmls = selected_inner_html(document, selector);
    lemma_first_long_html(htmls, 0);
    if spec_get_next_selector(document, selector, scrape_type, post_url) is Ok {
        let s = first_long_html(htmls, 0)->0;
        let i = choose|i: int|
            0 <= i < htmls.len() && htmls[i] == s && long_enough(htmls[i]) && forall|j: int|
                0 <= j < i ==> !long_enough(#[trigger] htmls[j]);
        assert(!long_enough(htmls[i]) ==> false);
    }
}

/// Returns a sufficiently long string as description for the embed.
pub fn get_next_selector(page: &Page, selector: &str, scrape_type: ScrapeType, post_url: &str) -> (r: Result<String, NewsError>)
    ensures
        match r {
            Ok(s) => spec_get_next_selector(page@, selector@, scrape_type, post_url@) == Ok::<Seq<char>, NewsErrorView>(s@),
            Err(e) => spec_get_next_selector(page@, selector@, scrape_type, post_url@) == Err::<Seq<char>, NewsErrorView>(e@),
        },
{
    let sel = match format_selector(selector) {
        Ok(s) => s,
        Err(e) => return Err(e),
    };
    let htmls = select_inner_html(page, &sel);
    let ghost views_h = string_views(htmls@);
    let mut i: usize = 0;
    while i < htmls.len()
        invariant
            i <= htmls.len(),
            views_h == string_views(htmls@),
            views_h == selected_inner_html(page@, selector@),
            css_selector_valid(selector@),
            first_long_html(views_h, 0) == first_long_html(views_h, i as int),
        decreases htmls.len() - i,
    {
        if htmls[i].as_str().len() >= 10 {
            return Ok(htmls[i].clone());
        }
        i = i + 1;
    }
    Err(NewsError::MetaCannotBeScraped(scrape_type, post_url.to_owned()))
}

/// The part of an image URL that marks a news image.
pub open spec fn upload_marker() -> Seq<char> {
    "https://warthunder.com/upload/image//!"@
}

/// The image chosen from the rows (content, name, src) of the `meta` and
/// `img` elements, from row `i` on: the first news image given as content
/// (unless named `twitter:image`), or else the first source of an image.
pub open spec fn image_from(rows: Seq<Seq<Option<Seq<char>>>>, i: int) -> Seq<char>
    decreases rows.len() - i,
{
    if i < 0 || i >= rows.len() {
        seq![]
    } else {
        let row = rows[i];
        if row[0] is Some && contains_seq(row[0]->0, upload_marker()) && row[1] != Some(
            "twitter:image"@,
        ) {
            row[0]->0
        } else if row[2] is Some {
            row[2]->0
        } else {
            image_from(rows, i + 1)
        }
    }
}

/// The attributes read from the candidates for the image of a post.
pub open spec fn image_attributes() -> Seq<Seq<char>> {
    seq!["content"@, "name"@, "src"@]
}

/// What `scrape_news_image` gives.
pub open spec fn spec_scrape_news_image(document: Seq<char>) -> Result<Seq<char>, NewsErrorView> {
    if !css_selector_valid("meta, img"@) {
        Err(NewsErrorView::BadSelector("meta, img"@))
    } else {
        Ok(image_from(selected_attributes(document, "meta, img"@, image_attributes()), 0))
    }
}

/// Collects the meta image to display in the embed.
pub fn scrape_news_image(page: &Page) -> (r: Result<String, NewsError>)
    ensures
        match r {
            Ok(s) => spec_scrape_news_image(page@) == Ok::<Seq<char>, NewsErrorView>(s@),
            Err(e) => spec_scrape_news_image(page@) == Err::<Seq<char>, NewsErrorView>(e@),
        },
{
    let sel = match format_selector("meta, img") {
        Ok(s) => s,
        Err(e) => return Err(e),
    };
    let mut names: Vec<String> = Vec::new();
    names.push(String::from_str("content"));
    names.push(String::from_str("name"));
    names.push(String::from_str("src"));
    assert(string_views(names@) =~= image_attributes());
    let rows = select_attributes(page, &sel, &names);
    let ghost tv = crate::scrapers::scraper_resources::html_util::table_views(rows@);
    let upload = chars_of("https://warthunder.com/upload/image//!");
    let twitter = chars_of("twitter:image");
    let mut i: usize = 0;
    while i < rows.len()
        invariant
            i <= rows.len(),
            tv == crate::scrapers::scraper_resources::html_util::table_views(rows@),
            tv == selected_attributes(page@, "meta, img"@, image_attributes()),
            css_selector_valid("meta, img"@),
            forall|k: int| 0 <= k < rows.len() ==> (#[trigger] rows@[k]).len() == 3,
            upload@ == upload_marker(),
            twitter@ == "twitter:image"@,
            image_from(tv, 0) == image_from(tv, i as int),
        decreases rows.len() - i,
    {
        let row = &rows[i];
        assert(tv[i as int] == row@.map_values(|o: Option<String>| opt_view(o)));
        assert(tv[i as int][0] == opt_view(row@[0]));
        assert(tv[i as int][1] == opt_view(row@[1]));
        assert(tv[i as int][2] == opt_view(row@[2]));
        match &row[0] {
            Some(content) => {
                let c = chars_of(content.as_str());
                if contains_chars(&c, &upload) {
                    let named_twitter = match &row[1] {
                        Some(n) => {
                            let nc = chars_of(n.as_str());
                            crate::text::chars_eq(&nc, &twitter)
                        },
                        None => false,
                    };
                    if !named_twitter {
                        return Ok(content.clone());
                    }
                }
            },
            None => {},
        }
        match &row[2] {
            Some(src) => {
                return Ok(src.clone());
            },
            None => {},
        }
        i = i + 1;
    }
    Ok(String::new())
}

/// The selector of the title of a forum post.
pub open spec fn forum_title_selector() -> Seq<char> {
    "head>meta:nth-child(5)"@
}

/// The selector of the preview of a forum post.
pub open spec fn forum_preview_selector() -> Seq<char> {
    "head>meta:nth-child(8)"@
}

/// The selector of the title of a main-site post.
pub open spec fn main_title_selector() -> Seq<char> {
    "head>meta:nth-child(13)"@
}

/// The fixed preview shown for changelogs.
pub open spec fn changelog_preview() -> Seq<char> {
    "The current provided changelog reflects the major changes within the game as part of this Update. Some updates, additions and fixes may not be listed in the provided notes. War Thunder is constantly improving and specific fixes may be implemented without the client being updated."@
}

/// The image of a main-site post, or the placeholder when it cannot be read.
pub open spec fn image_or_placeholder(document: Seq<char>) -> Seq<char> {
    match spec_scrape_news_image(document) {
        Ok(i) => i,
        Err(_) => EMPTY_IMG@,
    }
}

/// What `scrape_meta` reads from a page: (title, image URL, preview text).
pub open spec fn spec_scrape_meta(document: Seq<char>, scrape_type: ScrapeType, post_url: Seq<char>) -> Result<
    (Seq<char>, Seq<char>, Seq<char>),
    NewsErrorView,
> {
    let content = seq!["content"@];
    match scrape_type {
        ScrapeType::Forum => match spec_select_first(document, forum_title_selector(), content, post_url) {
            Err(e) => Err(e),
            Ok(t) => match spec_select_first(document, forum_preview_selector(), content, post_url) {
                Err(e) => Err(e),
                Ok(p) => match spec_select_attribute(t[0], "content"@, post_url) {
                    Err(e) => Err(e),
                    Ok(title) => match spec_select_attribute(p[0], "content"@, post_url) {
                        Err(e) => Err(e),
                        Ok(preview) => Ok((title, seq![], preview)),
                    },
                },
            },
        },
        ScrapeType::Main => match spec_select_first(document, main_title_selector(), content, post_url) {
            Err(e) => Err(e),
            Ok(t) => match spec_select_attribute(t[0], "content"@, post_url) {
                Err(e) => Err(e),
                Ok(title) => match spec_get_next_selector(document, "p"@, ScrapeType::Main, post_url) {
                    Err(e) => Err(e),
                    Ok(h) => Ok((title, image_or_placeholder(document), spec_sanitize_html(h))),
                },
            },
        },
        ScrapeType::Changelog => match spec_select_first(document, main_title_selector(), content, post_url) {
            Err(e) => Err(e),
            Ok(t) => match spec_select_attribute(t[0], "content"@, post_url) {
                Err(e) => Err(e),
                Ok(title) => Ok((title, image_or_placeholder(document), changelog_preview())),
            },
        },
    }
}

/// The single attribute name `content`.
fn content_name() -> (v: Vec<String>)
    ensures
        string_views(v@) == seq!["content"@],
        v.len() == 1,
{
    let mut v: Vec<String> = Vec::new();
    v.push(String::from_str("content"));
    assert(string_views(v@) =~= seq!["content"@]);
    v
}

/// The image of a main-site post, or the placeholder.
fn image_or_placeholder_exec(page: &Page) -> (r: String)
    ensures
        r@ == image_or_placeholder(page@),
{
    match scrape_news_image(page) {
        Ok(i) => i,
        Err(_) => EMPTY_IMG.to_owned(),
    }
}

/// Collects the embed information of a post from its page.
pub fn scrape_meta(page: &Page, scrape_type: ScrapeType, post_url: &str) -> (r: Result<EmbedData, NewsError>)
    ensures
        match r {
            Ok(e) => spec_scrape_meta(page@, scrape_type, post_url@) matches Ok((t, i, p)) && e.title@ == t
                && e.url@ == post_url@ && e.img_url@ == escape_spaces(i) && e.preview_text@ == p
                && e.scrape_type == scrape_type,
            Err(e) => spec_scrape_meta(page@, scrape_type, post_url@) == Err::<(Seq<char>, Seq<char>, Seq<char>), NewsErrorView>(e@),
        },
{
    let content = content_name();
    let (title, img_url, preview_text) = match scrape_type {
        ScrapeType::Forum => {
            let title_elem = match select_first(page, "head>meta:nth-child(5)", &content, post_url) {
                Ok(x) => x,
                Err(e) => return Err(e),
            };
            let preview_elem = match select_first(page, "head>meta:nth-child(8)", &content, post_url) {
                Ok(x) => x,
                Err(e) => return Err(e),
            };
            let title = match select_attribute(&title_elem[0], "content", post_url) {
                Ok(x) => x,
                Err(e) => return Err(e),
            };
            let preview = match select_attribute(&preview_elem[0], "content", post_url) {
                Ok(x) => x,
                Err(e) => return Err(e),
            };
            (title, String::new(), preview)
        },
        ScrapeType::Main => {
            let title_elem = match select_first(page, "head>meta:nth-child(13)", &content, post_url) {
                Ok(x) => x,
                Err(e) => return Err(e),
            };
            let title = match select_attribute(&title_elem[0], "content", post_url) {
                Ok(x) => x,
                Err(e) => return Err(e),
            };
            let image = image_or_placeholder_exec(page);
            let paragraph = match get_next_selector(page, "p", ScrapeType::Main, post_url) {
                Ok(x) => x,
                Err(e) => return Err(e),
            };
            (title, image, sanitize_html(paragraph.as_str()))
        },
        ScrapeType::Changelog => {
            let title_elem = match select_first(page, "head>meta:nth-child(13)", &content, post_url) {
                Ok(x) => x,
                Err(e) => return Err(e),
            };
            let title = match select_attribute(&title_elem[0], "content", post_url) {
                Ok(x) => x,
                Err(e) => return Err(e),
            };
            let image = image_or_placeholder_exec(page);
            (
                title,
                image,
                String::from_str(
                    "The current provided changelog reflects the major changes within the game as part of this Update. Some updates, additions and fixes may not be listed in the provided notes. War Thunder is constantly improving and specific fixes may be implemented without the client being updated.",
                ),
            )
        },
    };
    Ok(EmbedData::new(title.as_str(), post_url, img_url.as_str(), preview_text.as_str(), scrape_type))
}

/// `s` holds no angle bracket.
pub open spec fn no_brackets(s: Seq<char>) -> bool {
    forall|i: int| 0 <= i < s.len() ==> s[i] != '<' && #[trigger] s[i] != '>'
}

proof fn lemma_strip_plain(h: Seq<char>, n: nat)
    requires
        no_brackets(h),
        n <= h.len(),
    ensures
        strip_prefix(h, n) == (h.take(n as int), false),
    decreases n,
{
    if n > 0 {
        lemma_strip_plain(h, (n - 1) as nat);
        assert(h[n - 1] != '<' && h[n - 1] != '>');
        assert(h.take(n - 1).push(h[n - 1]) =~= h.take(n as int));
    } else {
        assert(h.take(0) =~= Seq::<char>::empty());
    }
}

proof fn lemma_pieces_plain(s: Seq<char>, pat: Seq<char>, pos: int)
    requires
        no_brackets(s),
        0 <= pos <= s.len(),
    ensures
        forall|k: int| 0 <= k < split_from(s, pat, pos).len() ==> no_brackets(#[trigger] split_from(s, pat, pos)[k]),
    decreases s.len() + 1 - pos,
{
    if pat.len() == 0 {
    } else {
        match find_from(s, pat, pos) {
            None => {},
            Some(j) => {
                lemma_find_from(s, pat, pos);
                lemma_pieces_plain(s, pat, j + pat.len());
                let rest = split_from(s, pat, j + pat.len());
                assert forall|k: int| 0 <= k < split_from(s, pat, pos).len() implies no_brackets(
                    #[trigger] split_from(s, pat, pos)[k],
                ) by {
                    if k > 0 {
                        assert(split_from(s, pat, pos)[k] == rest[k - 1]);
                    }
                }
            },
        }
    }
}

proof fn lemma_plain_piece_has_no_link(item: Seq<char>)
    requires
        no_brackets(item),
    ensures
        link_of(item) is None,
{
    reveal_strlit("\">");
    assert(label_marker() =~= seq!['"', '>']);
    lemma_find_from(item, label_marker(), 0);
    if let Some(j) = find_from(item, label_marker(), 0) {
        assert(item.subrange(j, j + 2)[1] == item[j + 1]);
        assert(item[j + 1] == '>');
    }
    assert(split_seq(item, label_marker()).len() == 1);
}

proof fn lemma_no_links(pieces: Seq<Seq<char>>)
    requires
        forall|k: int| 0 <= k < pieces.len() ==> no_brackets(#[trigger] pieces[k]),
    ensures
        extract_links(pieces) == Seq::<(Seq<char>, Seq<char>)>::empty(),
    decreases pieces.len(),
{
    if pieces.len() > 0 {
        assert(no_brackets(pieces[pieces.len() - 1]));
        lemma_plain_piece_has_no_link(pieces.last());
        assert forall|k: int| 0 <= k < pieces.drop_last().len() implies no_brackets(#[trigger] pieces.drop_last()[k]) by {
            assert(pieces.drop_last()[k] == pieces[k]);
        }
        lemma_no_links(pieces.drop_last());
    }
}

/// Text without angle brackets holds neither tags nor links and is left
/// unchanged.
pub proof fn law_plain_text_unchanged(h: Seq<char>)
    requires
        no_brackets(h),
    ensures
        spec_sanitize_html(h) == h,
{
    lemma_strip_plain(h, h.len());
    assert(h.take(h.len() as int) =~= h);
    lemma_pieces_plain(h, href_marker(), 0);
    lemma_no_links(split_seq(h, href_marker()));
}

} // verus!
