//! The regulation-pattern splitting strategy.
//!
//! Chinese regulations number their structure with chapter headings
//! ("第一章", "第二章", ...) and article headings ("第一条", "第二条",
//! ...).  A marker is the character 第, a run of Chinese numerals, a
//! run of decimal digits, and the closing character 章 or 条.  The
//! strategy records every marker's position, requires that the total
//! count reaches a configured threshold, and then walks the markers in
//! order: every article marker opens a chunk that runs to the next
//! marker (or to the end of the text), trimmed and tagged with the most
//! recent chapter heading.  Chapter markers only update that heading.

use vstd::prelude::*;
use vstd::string::*;

use crate::blunder::ErrorChain;
use crate::pipeline::Article;
use crate::pipeline::SpecArticle;
use crate::pipeline::articles_view;
use crate::text::dec_str;
use crate::text::trim_seq;
use crate::text::trim_str;
use crate::text::u64_to_dec;

verus! {

/// The Chinese numerals a marker may spell its number with.
pub open spec fn is_numeral_char(c: char) -> bool {
    c == '零' || c == '一' || c == '二' || c == '三' || c == '四' || c == '五' || c == '六'
        || c == '七' || c == '八' || c == '九' || c == '十' || c == '百' || c == '千' || c == '万'
}

fn is_numeral(c: char) -> (r: bool)
    ensures
        r == is_numeral_char(c),
{
    c == '零' || c == '一' || c == '二' || c == '三' || c == '四' || c == '五' || c == '六'
        || c == '七' || c == '八' || c == '九' || c == '十' || c == '百' || c == '千' || c == '万'
}

/// An ASCII decimal digit.
pub open spec fn is_digit_char(c: char) -> bool {
    '0' <= c && c <= '9'
}

/// The end of the numeral run that starts at `i`: the first position at
/// or after `i` that does not hold a Chinese numeral.
pub open spec fn numeral_run_end(s: Seq<char>, i: int) -> int
    decreases s.len() - i,
    when 0 <= i <= s.len()
{
    if i < s.len() && is_numeral_char(s[i]) {
        numeral_run_end(s, i + 1)
    } else {
        i
    }
}

/// The end of the digit run that starts at `i`.
pub open spec fn digit_run_end(s: Seq<char>, i: int) -> int
    decreases s.len() - i,
    when 0 <= i <= s.len()
{
    if i < s.len() && is_digit_char(s[i]) {
        digit_run_end(s, i + 1)
    } else {
        i
    }
}

/// Where the closing character of a marker starting at `i` must stand:
/// after the numeral run and then the digit run that follow 第.
pub open spec fn marker_close(s: Seq<char>, i: int) -> int {
    digit_run_end(s, numeral_run_end(s, i + 1))
}

/// Whether a marker closed by `close` starts at position `i`.
pub open spec fn is_marker(s: Seq<char>, i: int, close: char) -> bool {
    0 <= i < s.len() && s[i] == '第' && marker_close(s, i) < s.len() && s[marker_close(s, i)]
        == close
}

/// A marker's kind: an article marker closes with 条, a chapter marker
/// with 章.
#[derive(Clone, Copy, Debug, PartialEq, Eq, Structural)]
pub enum Section {
    Article,
    Chapter,
}

/// The kind of the marker starting at `i`, if any.
pub open spec fn marker_kind(s: Seq<char>, i: int) -> Option<Section> {
    if is_marker(s, i, '条') {
        Some(Section::Article)
    } else if is_marker(s, i, '章') {
        Some(Section::Chapter)
    } else {
        None
    }
}

fn numeral_run(s: &str, start: usize) -> (r: usize)
    requires
        start <= s@.len(),
    ensures
        r == numeral_run_end(s@, start as int),
        start <= r <= s@.len(),
{
    let n: usize = s.unicode_len();
    let mut a: usize = start;
    while a < n && is_numeral(s.get_char(a))
        invariant
            start <= a <= n,
            n == s@.len(),
            numeral_run_end(s@, start as int) == numeral_run_end(s@, a as int),
        decreases n - a,
    {
        a = a + 1;
    }
    a
}

fn digit_run(s: &str, start: usize) -> (r: usize)
    requires
        start <= s@.len(),
    ensures
        r == digit_run_end(s@, start as int),
        start <= r <= s@.len(),
{
    let n: usize = s.unicode_len();
    let mut a: usize = start;
    while a < n && '0' <= s.get_char(a) && s.get_char(a) <= '9'
        invariant
            start <= a <= n,
            n == s@.len(),
            digit_run_end(s@, start as int) == digit_run_end(s@, a as int),
        decreases n - a,
    {
        a = a + 1;
    }
    a
}

/// Examines position `i`: the kind of the marker starting there and the
/// position one past its closing character, if there is one.
pub fn marker_at(s: &str, i: usize) -> (r: Option<(Section, usize)>)
    requires
        i < s@.len(),
    ensures
        match r {
            Some((kind, end)) => marker_kind(s@, i as int) == Some(kind) && end == marker_close(
                s@,
                i as int,
            ) + 1 && i < end <= s@.len(),
            None => marker_kind(s@, i as int) is None,
        },
{
    let n: usize = s.unicode_len();
    if s.get_char(i) != '第' {
        return None;
    }
    let a = numeral_run(s, i + 1);
    let b = digit_run(s, a);
    if b < n {
        let c = s.get_char(b);
        if c == '条' {
            Some((Section::Article, b + 1))
        } else if c == '章' {
            Some((Section::Chapter, b + 1))
        } else {
            None
        }
    } else {
        None
    }
}

/// All markers at or after position `i`, in ascending order of
/// position, each with its kind.
pub open spec fn sections_from(s: Seq<char>, i: int) -> Seq<(int, Section)>
    decreases s.len() - i,
    when 0 <= i <= s.len()
{
    if i >= s.len() {
        Seq::empty()
    } else {
        let rest = sections_from(s, i + 1);
        match marker_kind(s, i) {
            Some(kind) => seq![(i, kind)] + rest,
            None => rest,
        }
    }
}

/// All markers of the text, in ascending order of position.
pub open spec fn spec_sections(s: Seq<char>) -> Seq<(int, Section)> {
    sections_from(s, 0)
}

proof fn lemma_sections_bounds(s: Seq<char>, i: int)
    requires
        0 <= i <= s.len(),
    ensures
        forall|k: int|
            0 <= k < sections_from(s, i).len() ==> i <= (#[trigger] sections_from(s, i)[k]).0
                < s.len(),
        forall|k1: int, k2: int|
            0 <= k1 < k2 < sections_from(s, i).len() ==> (#[trigger] sections_from(s, i)[k1]).0 < (
            #[trigger] sections_from(s, i)[k2]).0,
    decreases s.len() - i,
{
    if i < s.len() {
        lemma_sections_bounds(s, i + 1);
        let rest = sections_from(s, i + 1);
        let cur = sections_from(s, i);
        assert forall|k: int| 0 <= k < cur.len() implies i <= (#[trigger] cur[k]).0 < s.len() by {
            match marker_kind(s, i) {
                Some(_) => {
                    if k > 0 {
                        assert(cur[k] == rest[k - 1]);
                    }
                },
                None => {
                    assert(cur[k] == rest[k]);
                },
            }
        }
        assert forall|k1: int, k2: int| 0 <= k1 < k2 < cur.len() implies (#[trigger] cur[k1]).0 < (
        #[trigger] cur[k2]).0 by {
            match marker_kind(s, i) {
                Some(_) => {
                    assert(cur[k2] == rest[k2 - 1]);
                    if k1 > 0 {
                        assert(cur[k1] == rest[k1 - 1]);
                    } else {
                        assert(i + 1 <= rest[k2 - 1].0);
                    }
                },
                None => {
                    assert(cur[k1] == rest[k1]);
                    assert(cur[k2] == rest[k2]);
                },
            }
        }
    }
}

/// The positions and kinds a vector of sections denotes.
pub open spec fn sections_view(sections: Seq<(usize, Section)>) -> Seq<(int, Section)> {
    Seq::new(sections.len(), |i: int| (sections[i].0 as int, sections[i].1))
}

/// Records every marker of the text with its kind, in ascending order
/// of position, as `spec_sections` describes.
pub fn scan_sections(s: &str) -> (r: Vec<(usize, Section)>)
    ensures
        sections_view(r@) == spec_sections(s@),
{
    let n: usize = s.unicode_len();
    let mut out: Vec<(usize, Section)> = Vec::new();
    let mut i: usize = 0;
    proof {
        assert(sections_view(out@) + sections_from(s@, 0) =~= sections_from(s@, 0));
    }
    while i < n
        invariant
            0 <= i <= n,
            n == s@.len(),
            sections_view(out@) + sections_from(s@, i as int) == spec_sections(s@),
        decreases n - i,
    {
        let ghost prev = sections_view(out@);
        match marker_at(s, i) {
            Some((kind, _end)) => {
                out.push((i, kind));
                proof {
                    assert(sections_view(out@) =~= prev.push((i as int, kind)));
                    assert(sections_view(out@) + sections_from(s@, i + 1) =~= prev + (seq![
                        (i as int, kind),
                    ] + sections_from(s@, i + 1)));
                }
            },
            None => {},
        }
        i = i + 1;
    }
    proof {
        assert(sections_from(s@, n as int) =~= Seq::<(int, Section)>::empty());
        assert(sections_view(out@) + sections_from(s@, n as int) =~= sections_view(out@));
    }
    out
}

/// All markers closed by `close` at or after position `i`, each with
/// the text it spans up to and including its closing character.
pub open spec fn markers_from(s: Seq<char>, i: int, close: char) -> Seq<(int, Seq<char>)>
    decreases s.len() - i,
    when 0 <= i <= s.len()
{
    if i >= s.len() {
        Seq::empty()
    } else {
        let rest = markers_from(s, i + 1, close);
        if is_marker(s, i, close) {
            seq![(i, s.subrange(i, marker_close(s, i) + 1))] + rest
        } else {
            rest
        }
    }
}

/// The positions and texts a vector of matches denotes.
pub open spec fn matches_view(pairs: Seq<(usize, String)>) -> Seq<(int, Seq<char>)> {
    Seq::new(pairs.len(), |i: int| (pairs[i].0 as int, pairs[i].1@))
}

fn scan_markers(s: &str, close: char) -> (r: Vec<(usize, String)>)
    requires
        close == '条' || close == '章',
    ensures
        matches_view(r@) == markers_from(s@, 0, close),
{
    let n: usize = s.unicode_len();
    let mut out: Vec<(usize, String)> = Vec::new();
    let mut i: usize = 0;
    proof {
        assert(matches_view(out@) + markers_from(s@, 0, close) =~= markers_from(s@, 0, close));
    }
    while i < n
        invariant
            0 <= i <= n,
            n == s@.len(),
            close == '条' || close == '章',
            matches_view(out@) + markers_from(s@, i as int, close) == markers_from(s@, 0, close),
        decreases n - i,
    {
        let ghost prev = matches_view(out@);
        let hit = match marker_at(s, i) {
            Some((Section::Article, end)) => if close == '条' {
                Some(end)
            } else {
                None
            },
            Some((Section::Chapter, end)) => if close == '章' {
                Some(end)
            } else {
                None
            },
            None => None,
        };
        proof {
            if hit is None {
                assert(!is_marker(s@, i as int, close));
            }
        }
        match hit {
            Some(end) => {
                let text = s.substring_char(i, end).to_owned();
                out.push((i, text));
                proof {
                    assert(is_marker(s@, i as int, close));
                    assert(matches_view(out@) =~= prev.push((i as int, text@)));
                    assert(matches_view(out@) + markers_from(s@, i + 1, close) =~= prev + (seq![
                        (i as int, s@.subrange(i as int, marker_close(s@, i as int) + 1)),
                    ] + markers_from(s@, i + 1, close)));
                }
            },
            None => {},
        }
        i = i + 1;
    }
    proof {
        assert(markers_from(s@, n as int, close) =~= Seq::<(int, Seq<char>)>::empty());
        assert(matches_view(out@) + markers_from(s@, n as int, close) =~= matches_view(out@));
    }
    out
}

/// Records every article marker ("第...条") with its position and text,
/// as `markers_from` describes.  Positions count characters.
pub fn splitting_document_by_article(content: &str) -> (r: Vec<(usize, String)>)
    ensures
        matches_view(r@) == markers_from(content@, 0, '条'),
{
    scan_markers(content, '条')
}

/// Records every chapter marker ("第...章") with its position and text,
/// as `markers_from` describes.  Positions count characters.
pub fn splitting_document_by_chapter(content: &str) -> (r: Vec<(usize, String)>)
    ensures
        matches_view(r@) == markers_from(content@, 0, '章'),
{
    scan_markers(content, '章')
}

/// The chunks a walk of the sections emits, starting under the given
/// chapter heading: each article section spans to the next section (or
/// the end of the text), trimmed; each chapter section replaces the
/// heading with its own trimmed span and emits nothing.
pub open spec fn constructed(
    s: Seq<char>,
    sections: Seq<(int, Section)>,
    chapter: Seq<char>,
) -> Seq<SpecArticle>
    decreases sections.len(),
{
    if sections.len() == 0 {
        Seq::empty()
    } else {
        let start = sections[0].0;
        let end = if sections.len() > 1 {
            sections[1].0
        } else {
            s.len() as int
        };
        let text = trim_seq(s.subrange(start, end));
        match sections[0].1 {
            Section::Chapter => constructed(s, sections.drop_first(), text),
            Section::Article => seq![
                SpecArticle { article: text, chapter: chapter, doctype: Seq::empty() },
            ] + constructed(s, sections.drop_first(), chapter),
        }
    }
}

/// Walks the sections in order and emits one chunk per article section,
/// tagged with the nearest preceding chapter heading, as `constructed`
/// describes.
pub fn construct_document_by_article(content: &str, sections: &Vec<(usize, Section)>) -> (r: Vec<
    Article,
>)
    requires
        forall|k: int|
            0 <= k < sections@.len() ==> (#[trigger] sections@[k]).0 <= content@.len(),
        forall|k1: int, k2: int|
            0 <= k1 < k2 < sections@.len() ==> (#[trigger] sections@[k1]).0 <= (
            #[trigger] sections@[k2]).0,
    ensures
        articles_view(r@) == constructed(content@, sections_view(sections@), Seq::empty()),
{
    let ghost all = sections_view(sections@);
    let n: usize = sections.len();
    let mut chapter: String = String::new();
    let mut out: Vec<Article> = Vec::new();
    let mut k: usize = 0;
    proof {
        assert(all.subrange(0, n as int) =~= all);
    }
    while k < n
        invariant
            0 <= k <= n,
            n == sections.len(),
            all == sections_view(sections@),
            forall|j: int| 0 <= j < n ==> (#[trigger] sections@[j]).0 <= content@.len(),
            forall|j1: int, j2: int|
                0 <= j1 < j2 < n ==> (#[trigger] sections@[j1]).0 <= (#[trigger] sections@[j2]).0,
            articles_view(out@) + constructed(content@, all.subrange(k as int, n as int), chapter@)
                == constructed(content@, all, Seq::empty()),
        decreases n - k,
    {
        let start = sections[k].0;
        let end = if k + 1 < n {
            sections[k + 1].0
        } else {
            content.unicode_len()
        };
        let ghost rest = all.subrange(k as int, n as int);
        proof {
            assert(rest[0] == (sections@[k as int].0 as int, sections@[k as int].1));
            if k + 1 < n {
                assert(rest[1] == (sections@[k + 1].0 as int, sections@[k + 1].1));
            }
            assert(rest.drop_first() =~= all.subrange(k + 1, n as int));
        }
        let text = trim_str(content.substring_char(start, end));
        match sections[k].1 {
            Section::Chapter => {
                chapter = text.to_owned();
            },
            Section::Article => {
                let ghost prev = articles_view(out@);
                out.push(
                    Article {
                        article: text.to_owned(),
                        chapter: chapter.clone(),
                        doctype: String::new(),
                    },
                );
                proof {
                    assert(articles_view(out@) =~= prev.push(
                        SpecArticle {
                            article: trim_seq(
                                content@.subrange(
                                    sections@[k as int].0 as int,
                                    if k + 1 < n {
                                        sections@[k + 1].0 as int
                                    } else {
                                        content@.len() as int
                                    },
                                ),
                            ),
                            chapter: chapter@,
                            doctype: Seq::empty(),
                        },
                    ));
                }
            },
        }
        k = k + 1;
    }
    proof {
        assert(all.subrange(n as int, n as int) =~= Seq::<(int, Section)>::empty());
        assert(articles_view(out@) + constructed(
            content@,
            all.subrange(n as int, n as int),
            chapter@,
        ) =~= articles_view(out@));
    }
    out
}

/// The chunks the regulation strategy yields when it applies: the walk
/// of all markers, starting with no chapter heading.
pub open spec fn spec_regulation_articles(s: Seq<char>) -> Seq<SpecArticle> {
    constructed(s, spec_sections(s), Seq::empty())
}

/// The failure message of the strategy when a text holds fewer markers
/// than the threshold asks for.
pub open spec fn spec_threshold_message(threshold: nat) -> Seq<char> {
    "章节条款总数少于"@ + dec_str(threshold) + "个"@
}

/// Splits a text by the regulation pattern: fails exactly when the
/// total count of chapter and article markers stays below `threshold`,
/// and otherwise emits the chunks `spec_regulation_articles` describes.
pub fn splitting_regulation_document(content: &str, threshold: usize) -> (r: Result<
    Vec<Article>,
    ErrorChain,
>)
    ensures
        match r {
            Ok(articles) => spec_sections(content@).len() >= threshold && articles_view(articles@)
                == spec_regulation_articles(content@),
            Err(e) => spec_sections(content@).len() < threshold && e@ == seq![
                spec_threshold_message(threshold as nat),
            ],
        },
{
    let sections = scan_sections(content);
    if sections.len() < threshold {
        let mut message = String::from_str("章节条款总数少于");
        let count = u64_to_dec(threshold as u64);
        message.append(count.as_str());
        message.append("个");
        proof {
            assert(sections_view(sections@).len() == sections@.len());
        }
        return Err(ErrorChain::root(message));
    }
    proof {
        lemma_sections_bounds(content@, 0);
        assert(sections_view(sections@).len() == sections@.len());
        assert forall|k: int| 0 <= k < sections@.len() implies (#[trigger] sections@[k]).0
            <= content@.len() by {
            assert(sections_view(sections@)[k].0 == sections@[k].0 as int);
        }
        assert forall|k1: int, k2: int|
            0 <= k1 < k2 < sections@.len() implies (#[trigger] sections@[k1]).0 <= (
        #[trigger] sections@[k2]).0 by {
            assert(sections_view(sections@)[k1].0 == sections@[k1].0 as int);
            assert(sections_view(sections@)[k2].0 == sections@[k2].0 as int);
        }
    }
    Ok(construct_document_by_article(content, &sections))
}

} // verus!
