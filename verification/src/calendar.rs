//! The public calendar builder: the link-visibility policy, the public
//! projection of a log item, and the week-bucketed calendar with its
//! sidebar of unscheduled items.

use vstd::prelude::*;
use vstd::string::StrSliceExecFns;
use vstd::string::StringExecFns;
use crate::dates::spec_parse_date;
use crate::dates::spec_day_number;
use crate::dates::spec_weekday_from_monday;
use crate::dates::spec_format_month_day;
use crate::dates::parse_iso_date;
use crate::dates::day_number;
use crate::dates::weekday_from_monday;
use crate::dates::format_month_day;
use crate::gateway::TranslationCache;
use crate::models::CalendarWeek;
use crate::models::CalendarWeekView;
use crate::models::LogItem;
use crate::models::LogItemView;
use crate::models::PublicLogItem;
use crate::models::PublicLogItemView;
use crate::text::contains_substr;
use crate::text::lemma_filter_push;
use crate::text::spec_contains_seq;
use crate::text::str_eq;
use crate::transliterate::spec_transliterate;
use crate::transliterate::translate_title_algorithmic;

verus! {

/// The first-party documentation domain: links containing it are
/// always shown.
pub const FIRST_PARTY_DOMAIN: &'static str = "docs.course.example";

/// The lecture-recording domain: links containing it are shown only on
/// lecture items, and only when the course shows lecture links.
pub const LECTURE_LINK_DOMAIN: &'static str = "lectures.course.example";

/// The link-visibility policy: a link containing the first-party
/// domain is shown verbatim; one containing the lecture-recording
/// domain is shown verbatim exactly on items of kind `Lecture` when
/// lecture links are enabled; every other link is suppressed.
pub open spec fn spec_link_visible(link: Option<Seq<char>>, kind: Seq<char>, show: bool) -> Option<
    Seq<char>,
> {
    match link {
        None => None,
        Some(l) => if spec_contains_seq(l, FIRST_PARTY_DOMAIN@) {
            Some(l)
        } else if spec_contains_seq(l, LECTURE_LINK_DOMAIN@) && kind == "Lecture"@ && show {
            Some(l)
        } else {
            None
        },
    }
}

/// A link containing the first-party domain is preserved verbatim,
/// whatever the kind and whatever the lecture-link flag.
pub proof fn lemma_link_policy_first_party(l: Seq<char>, kind: Seq<char>, show: bool)
    requires
        spec_contains_seq(l, FIRST_PARTY_DOMAIN@),
    ensures
        spec_link_visible(Some(l), kind, show) == Some(l),
{
}

/// A link containing the lecture-recording domain but not the
/// first-party domain is preserved exactly when the item's kind is
/// `Lecture` and lecture links are enabled.
pub proof fn lemma_link_policy_lecture(l: Seq<char>, kind: Seq<char>, show: bool)
    requires
        !spec_contains_seq(l, FIRST_PARTY_DOMAIN@),
        spec_contains_seq(l, LECTURE_LINK_DOMAIN@),
    ensures
        spec_link_visible(Some(l), kind, show) == (if kind == "Lecture"@ && show {
            Some(l)
        } else {
            None
        }),
{
}

/// A link containing neither allow-listed domain is suppressed.
pub proof fn lemma_link_policy_other_suppressed(l: Seq<char>, kind: Seq<char>, show: bool)
    requires
        !spec_contains_seq(l, FIRST_PARTY_DOMAIN@),
        !spec_contains_seq(l, LECTURE_LINK_DOMAIN@),
    ensures
        spec_link_visible(Some(l), kind, show) is None,
{
}

/// Apply the link-visibility policy to an item's link.
pub fn link_visible(link: &Option<String>, kind: &str, show: bool) -> (r: Option<String>)
    ensures
        r.deep_view() == spec_link_visible(link.deep_view(), kind@, show),
{
    match link {
        None => None,
        Some(l) => {
            if contains_substr(l.as_str(), FIRST_PARTY_DOMAIN) {
                Some(l.clone())
            } else if contains_substr(l.as_str(), LECTURE_LINK_DOMAIN) && str_eq(kind, "Lecture")
                && show {
                Some(l.clone())
            } else {
                None
            }
        },
    }
}

/// The public projection of one log item: the title transliterated
/// when transliteration is on, the description replaced by its cached
/// translation when one exists (and dropped when absent or empty), and
/// the link filtered by the visibility policy.
pub open spec fn spec_to_public(
    it: LogItemView,
    show: bool,
    m: Map<Seq<char>, Seq<char>>,
    use_transliteration: bool,
) -> PublicLogItemView {
    PublicLogItemView {
        id: it.id,
        kind: it.kind,
        title: if use_transliteration {
            spec_transliterate(it.kind, it.title)
        } else {
            it.title
        },
        description: match it.description {
            None => None,
            Some(d) => if d.len() == 0 {
                None
            } else if use_transliteration {
                if m.contains_key(d) {
                    Some(m[d])
                } else {
                    Some(d)
                }
            } else {
                Some(d)
            },
        },
        date: it.date,
        link: spec_link_visible(it.link, it.kind, show),
    }
}

/// Project one log item to its public form.
pub fn to_public(
    item: &LogItem,
    show_lecture_links: bool,
    cached_translations: &TranslationCache,
    use_transliteration: bool,
) -> (r: PublicLogItem)
    ensures
        r@ == spec_to_public(item@, show_lecture_links, cached_translations@, use_transliteration),
{
    let title = if use_transliteration {
        translate_title_algorithmic(item.kind.as_str(), item.title.as_str())
    } else {
        item.title.clone()
    };
    let description = match &item.description {
        None => None,
        Some(d) => {
            if d.as_str().is_empty() {
                None
            } else if use_transliteration {
                match cached_translations.lookup(d.as_str()) {
                    Some(t) => Some(t),
                    None => Some(d.clone()),
                }
            } else {
                Some(d.clone())
            }
        },
    };
    let date = match &item.date {
        None => None,
        Some(d) => Some(d.clone()),
    };
    let link = link_visible(&item.link, item.kind.as_str(), show_lecture_links);
    PublicLogItem { id: item.id, kind: item.kind.clone(), title, description, date, link }
}

/// The column a kind is rendered under: the six column kinds stand for
/// themselves, `Final` and `Project` have no column, and every other
/// kind falls under `Other`.
pub open spec fn spec_col_kind(kind: Seq<char>) -> Option<Seq<char>> {
    if kind == "Lecture"@ || kind == "Discussion"@ || kind == "Lab"@ || kind == "Homework"@ || kind
        == "Quiz"@ || kind == "Midterm"@ {
        Some(kind)
    } else if kind == "Final"@ || kind == "Project"@ {
        None
    } else {
        Some("Other"@)
    }
}

/// The column a kind is rendered under.
pub fn col_kind(kind: &str) -> (r: Option<&'static str>)
    ensures
        r.deep_view() == spec_col_kind(kind@),
{
    if str_eq(kind, "Lecture") {
        Some("Lecture")
    } else if str_eq(kind, "Discussion") {
        Some("Discussion")
    } else if str_eq(kind, "Lab") {
        Some("Lab")
    } else if str_eq(kind, "Homework") {
        Some("Homework")
    } else if str_eq(kind, "Quiz") {
        Some("Quiz")
    } else if str_eq(kind, "Midterm") {
        Some("Midterm")
    } else if str_eq(kind, "Final") || str_eq(kind, "Project") {
        None
    } else {
        Some("Other")
    }
}

/// An item with no date, or with an empty date string: it belongs to
/// the unscheduled sidebar.
pub open spec fn spec_undated(it: LogItemView) -> bool {
    it.date is None || it.date.unwrap().len() == 0
}

/// The day number of an item's date: `None` for undated items and for
/// date strings that do not parse (such items appear nowhere in the
/// calendar).
pub open spec fn spec_item_day(it: LogItemView) -> Option<u32> {
    if spec_undated(it) {
        None
    } else {
        match spec_parse_date(it.date.unwrap()) {
            Some(d) => Some(spec_day_number(d) as u32),
            None => None,
        }
    }
}

/// The unscheduled sidebar: the public projections of the undated
/// items, in their original relative order.
pub open spec fn spec_unscheduled(
    items: Seq<LogItemView>,
    show: bool,
    m: Map<Seq<char>, Seq<char>>,
    use_t: bool,
) -> Seq<PublicLogItemView> {
    items.filter(|it: LogItemView| spec_undated(it)).map_values(
        |it: LogItemView| spec_to_public(it, show, m, use_t),
    )
}

/// The dated items whose dates parse, as (day number, projection)
/// pairs in their original relative order.
pub open spec fn spec_dated_pairs(
    items: Seq<LogItemView>,
    show: bool,
    m: Map<Seq<char>, Seq<char>>,
    use_t: bool,
) -> Seq<(u32, PublicLogItemView)> {
    items.filter(|it: LogItemView| spec_item_day(it) is Some).map_values(
        |it: LogItemView| (spec_item_day(it).unwrap(), spec_to_public(it, show, m, use_t)),
    )
}

/// Insertion of one dated pair into a day-sorted run, after every pair
/// with the same or an earlier day: the sort this builds is stable.
pub open spec fn spec_insert_dated(
    s: Seq<(u32, PublicLogItemView)>,
    x: (u32, PublicLogItemView),
) -> Seq<(u32, PublicLogItemView)>
    decreases s.len(),
{
    if s.len() == 0 {
        seq![x]
    } else if s.last().0 > x.0 {
        spec_insert_dated(s.drop_last(), x).push(s.last())
    } else {
        s.push(x)
    }
}

/// The stable sort of the dated pairs by day number.
pub open spec fn spec_sort_dated(s: Seq<(u32, PublicLogItemView)>) -> Seq<
    (u32, PublicLogItemView),
>
    decreases s.len(),
{
    if s.len() == 0 {
        Seq::empty()
    } else {
        spec_insert_dated(spec_sort_dated(s.drop_last()), s.last())
    }
}

/// Sorted ascending by day number.
pub open spec fn spec_sorted_dated(s: Seq<(u32, PublicLogItemView)>) -> bool {
    forall|i: int, j: int| 0 <= i <= j < s.len() ==> (#[trigger] s[i]).0 <= (#[trigger] s[j]).0
}

/// Every day number of the run lies in the range that real dates
/// produce.
pub open spec fn spec_keys_in_range(s: Seq<(u32, PublicLogItemView)>) -> bool {
    forall|i: int| 0 <= i < s.len() ==> 7 <= (#[trigger] s[i]).0 < 4000000
}

/// Inserting one pair grows the run by one, keeps it sorted, keeps its
/// day numbers in range, and introduces no day number but the new one.
proof fn lemma_insert_dated_props(s: Seq<(u32, PublicLogItemView)>, x: (u32, PublicLogItemView))
    ensures
        spec_insert_dated(s, x).len() == s.len() + 1,
        spec_sorted_dated(s) ==> spec_sorted_dated(spec_insert_dated(s, x)),
        spec_keys_in_range(s) && 7 <= x.0 < 4000000 ==> spec_keys_in_range(spec_insert_dated(s, x)),
        forall|k: int|
            0 <= k < spec_insert_dated(s, x).len() ==> (#[trigger] spec_insert_dated(s, x)[k]).0
                == x.0 || exists|j: int| 0 <= j < s.len() && spec_insert_dated(s, x)[k].0 == (
            #[trigger] s[j]).0,
    decreases s.len(),
{
    let r = spec_insert_dated(s, x);
    if s.len() == 0 {
        assert(r =~= seq![x]);
    } else if s.last().0 > x.0 {
        let dl = s.drop_last();
        lemma_insert_dated_props(dl, x);
        let r1 = spec_insert_dated(dl, x);
        assert(r == r1.push(s.last()));
        assert forall|k: int| 0 <= k < r.len() implies (#[trigger] r[k]).0 == x.0 || exists|j: int|
            0 <= j < s.len() && r[k].0 == (#[trigger] s[j]).0 by {
            if k < r1.len() {
                assert(r[k] == r1[k]);
                if r1[k].0 != x.0 {
                    let j = choose|j: int| 0 <= j < dl.len() && r1[k].0 == (#[trigger] dl[j]).0;
                    assert(r[k].0 == s[j].0);
                }
            } else {
                assert(r[k] == s.last());
                assert(r[k].0 == s[s.len() - 1].0);
            }
        }
        if spec_sorted_dated(s) {
            assert(spec_sorted_dated(dl)) by {
                assert forall|i: int, j: int| 0 <= i <= j < dl.len() implies (#[trigger] dl[i]).0
                    <= (#[trigger] dl[j]).0 by {
                    assert(s[i].0 <= s[j].0);
                }
            }
            assert forall|i: int, j: int| 0 <= i <= j < r.len() implies (#[trigger] r[i]).0 <= (
            #[trigger] r[j]).0 by {
                if j < r1.len() {
                    assert(r1[i].0 <= r1[j].0);
                } else if i < r1.len() {
                    // everything in the inserted run is at most the old last
                    if r1[i].0 != x.0 {
                        let jj = choose|jj: int|
                            0 <= jj < dl.len() && r1[i].0 == (#[trigger] dl[jj]).0;
                        assert(s[jj].0 <= s[s.len() - 1].0);
                    }
                }
            }
        }
        if spec_keys_in_range(s) && 7 <= x.0 < 4000000 {
            assert(spec_keys_in_range(dl)) by {
                assert forall|i: int| 0 <= i < dl.len() implies 7 <= (#[trigger] dl[i]).0
                    < 4000000 by {
                    assert(7 <= s[i].0 < 4000000);
                }
            }
            assert forall|i: int| 0 <= i < r.len() implies 7 <= (#[trigger] r[i]).0 < 4000000 by {
                if i < r1.len() {
                    assert(7 <= r1[i].0 < 4000000);
                } else {
                    assert(r[i] == s.last());
                    assert(7 <= s[s.len() - 1].0 < 4000000);
                }
            }
        }
    } else {
        assert(r == s.push(x));
        if spec_sorted_dated(s) {
            assert forall|i: int, j: int| 0 <= i <= j < r.len() implies (#[trigger] r[i]).0 <= (
            #[trigger] r[j]).0 by {
                if j < s.len() {
                    assert(s[i].0 <= s[j].0);
                } else if i < s.len() {
                    assert(s[i].0 <= s[s.len() - 1].0);
                }
            }
        }
    }
}

/// The position form of the insertion: inserting at the first position
/// from the right whose predecessor has the same or an earlier day.
proof fn lemma_insert_dated_at(s: Seq<(u32, PublicLogItemView)>, x: (u32, PublicLogItemView), pos: int)
    requires
        0 <= pos <= s.len(),
        forall|j: int| pos <= j < s.len() ==> (#[trigger] s[j]).0 > x.0,
        pos > 0 ==> s[pos - 1].0 <= x.0,
    ensures
        spec_insert_dated(s, x) == s.subrange(0, pos).push(x) + s.subrange(pos, s.len() as int),
    decreases s.len(),
{
    if s.len() == 0 {
        assert(spec_insert_dated(s, x) =~= s.subrange(0, pos).push(x) + s.subrange(
            pos,
            s.len() as int,
        ));
    } else if s.last().0 > x.0 {
        assert(pos < s.len()) by {
            if pos == s.len() {
                assert(s[pos - 1].0 <= x.0);
            }
        }
        let dl = s.drop_last();
        lemma_insert_dated_at(dl, x, pos);
        assert(spec_insert_dated(s, x) =~= s.subrange(0, pos).push(x) + s.subrange(
            pos,
            s.len() as int,
        ));
    } else {
        assert(pos == s.len()) by {
            if pos < s.len() {
                assert(s[s.len() - 1].0 > x.0);
            }
        }
        assert(spec_insert_dated(s, x) =~= s.subrange(0, pos).push(x) + s.subrange(
            pos,
            s.len() as int,
        ));
    }
}

/// Inserting a pair never crosses a pair of the same or a smaller day
/// number, so each day's pairs keep their order.
proof fn lemma_insert_dated_filter_key(
    s: Seq<(u32, PublicLogItemView)>,
    x: (u32, PublicLogItemView),
    k: u32,
)
    ensures
        spec_insert_dated(s, x).filter(|p: (u32, PublicLogItemView)| p.0 == k) == (if x.0 == k {
            s.filter(|p: (u32, PublicLogItemView)| p.0 == k).push(x)
        } else {
            s.filter(|p: (u32, PublicLogItemView)| p.0 == k)
        }),
    decreases s.len(),
{
    let pred = |p: (u32, PublicLogItemView)| p.0 == k;
    if s.len() == 0 {
        assert(spec_insert_dated(s, x) == s.push(x)) by {
            assert(spec_insert_dated(s, x) =~= seq![x]);
            assert(s.push(x) =~= seq![x]);
        }
        lemma_filter_push(s, x, pred);
        assert(s.filter(pred) =~= Seq::<(u32, PublicLogItemView)>::empty()) by {
            reveal(Seq::filter);
        }
    } else if s.last().0 > x.0 {
        let dl = s.drop_last();
        lemma_insert_dated_filter_key(dl, x, k);
        lemma_filter_push(spec_insert_dated(dl, x), s.last(), pred);
        lemma_filter_push(dl, s.last(), pred);
        assert(dl.push(s.last()) =~= s);
    } else {
        lemma_filter_push(s, x, pred);
    }
}

/// The sort is stable: for every day number, the pairs of that day
/// stand in the sorted run in their original relative order.
pub proof fn lemma_sort_dated_stable(s: Seq<(u32, PublicLogItemView)>, k: u32)
    ensures
        spec_sort_dated(s).filter(|p: (u32, PublicLogItemView)| p.0 == k) == s.filter(
            |p: (u32, PublicLogItemView)| p.0 == k,
        ),
    decreases s.len(),
{
    let pred = |p: (u32, PublicLogItemView)| p.0 == k;
    if s.len() == 0 {
        assert(spec_sort_dated(s).filter(pred) =~= s.filter(pred)) by {
            reveal(Seq::filter);
        }
    } else {
        let dl = s.drop_last();
        lemma_sort_dated_stable(dl, k);
        lemma_insert_dated_filter_key(spec_sort_dated(dl), s.last(), k);
        lemma_filter_push(dl, s.last(), pred);
        assert(dl.push(s.last()) =~= s);
    }
}

/// The stable sort keeps the length, sorts the run, and keeps its day
/// numbers in range.
proof fn lemma_sort_dated_props(s: Seq<(u32, PublicLogItemView)>)
    ensures
        spec_sort_dated(s).len() == s.len(),
        spec_sorted_dated(spec_sort_dated(s)),
        spec_keys_in_range(s) ==> spec_keys_in_range(spec_sort_dated(s)),
    decreases s.len(),
{
    if s.len() > 0 {
        let dl = s.drop_last();
        if spec_keys_in_range(s) {
            assert(spec_keys_in_range(dl)) by {
                assert forall|i: int| 0 <= i < dl.len() implies 7 <= (#[trigger] dl[i]).0
                    < 4000000 by {
                    assert(7 <= s[i].0 < 4000000);
                }
            }
            assert(7 <= s[s.len() - 1].0 < 4000000);
        }
        lemma_sort_dated_props(dl);
        lemma_insert_dated_props(spec_sort_dated(dl), s.last());
        if spec_keys_in_range(s) {
            assert forall|i: int|
                0 <= i < spec_sort_dated(s).len() implies 7 <= (#[trigger] spec_sort_dated(
                s,
            )[i]).0 < 4000000 by {
                let r1 = spec_sort_dated(dl);
                if spec_sort_dated(s)[i].0 != s.last().0 {
                    let j = choose|j: int|
                        0 <= j < r1.len() && spec_sort_dated(s)[i].0 == (#[trigger] r1[j]).0;
                    assert(7 <= r1[j].0 < 4000000);
                }
            }
        }
    }
}

/// Insert one dated pair into a day-sorted vector, after every pair
/// with the same or an earlier day.
fn insert_dated(v: &mut Vec<(u32, PublicLogItem)>, key: u32, item: PublicLogItem)
    ensures
        final(v).deep_view() == spec_insert_dated(old(v).deep_view(), (key, item@)),
{
    let ghost dv = v.deep_view();
    let mut pos: usize = v.len();
    while pos > 0 && v[pos - 1].0 > key
        invariant
            pos <= v.len(),
            dv == v.deep_view(),
            forall|j: int| pos <= j < v.len() ==> (#[trigger] v.deep_view()[j]).0 > key,
        decreases pos,
    {
        proof {
            assert(v.deep_view()[pos - 1].0 == v@[pos - 1].0);
        }
        pos = pos - 1;
    }
    proof {
        if pos > 0 {
            assert(v.deep_view()[pos - 1].0 == v@[pos - 1].0);
        }
        lemma_insert_dated_at(dv, (key, item@), pos as int);
    }
    let ghost xv = (key, item@);
    v.insert(pos, (key, item));
    proof {
        assert(v.deep_view() =~= dv.subrange(0, pos as int).push(xv) + dv.subrange(
            pos as int,
            dv.len() as int,
        ));
    }
}

/// Some pair of the run renders under this column kind.
pub open spec fn spec_kind_active(s: Seq<(u32, PublicLogItemView)>, k: Seq<char>) -> bool {
    exists|i: int| 0 <= i < s.len() && spec_col_kind((#[trigger] s[i]).1.kind) == Some(k)
}

/// The active kinds: the canonical column order — Lecture, Discussion,
/// Lab, Homework, Quiz, Midterm, Other — restricted to the kinds under
/// which at least one dated item renders.
pub open spec fn spec_active_kinds(s: Seq<(u32, PublicLogItemView)>) -> Seq<Seq<char>> {
    (if spec_kind_active(s, "Lecture"@) {
        seq!["Lecture"@]
    } else {
        Seq::empty()
    }) + (if spec_kind_active(s, "Discussion"@) {
        seq!["Discussion"@]
    } else {
        Seq::empty()
    }) + (if spec_kind_active(s, "Lab"@) {
        seq!["Lab"@]
    } else {
        Seq::empty()
    }) + (if spec_kind_active(s, "Homework"@) {
        seq!["Homework"@]
    } else {
        Seq::empty()
    }) + (if spec_kind_active(s, "Quiz"@) {
        seq!["Quiz"@]
    } else {
        Seq::empty()
    }) + (if spec_kind_active(s, "Midterm"@) {
        seq!["Midterm"@]
    } else {
        Seq::empty()
    }) + (if spec_kind_active(s, "Other"@) {
        seq!["Other"@]
    } else {
        Seq::empty()
    })
}

/// Whether some pair of the vector renders under this column kind.
fn kind_is_active(v: &Vec<(u32, PublicLogItem)>, k: &str) -> (r: bool)
    ensures
        r == spec_kind_active(v.deep_view(), k@),
{
    let n = v.len();
    for i in 0..n
        invariant
            n == v.len(),
            forall|j: int|
                0 <= j < i ==> spec_col_kind((#[trigger] v.deep_view()[j]).1.kind) != Some(k@),
    {
        let ck = col_kind(v[i].1.kind.as_str());
        let found = match ck {
            Some(cs) => str_eq(cs, k),
            None => false,
        };
        proof {
            assert(v.deep_view()[i as int].1.kind == v@[i as int].1@.kind);
        }
        if found {
            proof {
                assert(spec_col_kind((v.deep_view()[i as int]).1.kind) == Some(k@));
            }
            return true;
        }
    }
    false
}

/// The zero-based week bucket of a day number, relative to the Monday
/// of the epoch week.
pub open spec fn spec_week_index(dn: u32, em: int) -> int {
    (dn - em) / 7
}

/// The items of one (week, column kind) bucket, in sorted order.
pub open spec fn spec_week_bucket(
    s: Seq<(u32, PublicLogItemView)>,
    em: int,
    w: int,
    k: Seq<char>,
) -> Seq<PublicLogItemView> {
    s.filter(
        |p: (u32, PublicLogItemView)| spec_week_index(p.0, em) == w && spec_col_kind(p.1.kind)
            == Some(k),
    ).map_values(|p: (u32, PublicLogItemView)| p.1)
}

/// One calendar week: its 1-based number, the Monday and Sunday of its
/// span, and one column per active kind in canonical order, empty
/// columns included.
pub open spec fn spec_week(s: Seq<(u32, PublicLogItemView)>, em: int, w: int) -> CalendarWeekView {
    CalendarWeekView {
        week_number: (w + 1) as u32,
        start_date: spec_format_month_day(em + 7 * w),
        end_date: spec_format_month_day(em + 7 * w + 6),
        items_by_kind: spec_active_kinds(s).map_values(
            |k: Seq<char>| (k, spec_week_bucket(s, em, w, k)),
        ),
    }
}

/// The whole calendar: the weeks from the epoch week through the week
/// of the latest dated item (gap weeks included, with empty columns),
/// the unscheduled sidebar, and the active kinds. With no dated item
/// that parses, the weeks and the active kinds are empty.
pub open spec fn spec_build_calendar(
    items: Seq<LogItemView>,
    show: bool,
    m: Map<Seq<char>, Seq<char>>,
    use_t: bool,
) -> (Seq<CalendarWeekView>, Seq<PublicLogItemView>, Seq<Seq<char>>) {
    let unsched = spec_unscheduled(items, show, m, use_t);
    let sorted = spec_sort_dated(spec_dated_pairs(items, show, m, use_t));
    if sorted.len() == 0 {
        (Seq::empty(), unsched, Seq::empty())
    } else {
        let epoch = sorted[0].0;
        let em = epoch - spec_weekday_from_monday(epoch as int);
        let maxw = spec_week_index(sorted.last().0, em);
        let nweeks: nat = if maxw >= 0 {
            (maxw + 1) as nat
        } else {
            0
        };
        (
            Seq::new(nweeks, |w: int| spec_week(sorted, em, w)),
            unsched,
            spec_active_kinds(sorted),
        )
    }
}

/// Collect one (week, column kind) bucket from the sorted run.
#[verifier::loop_isolation(false)]
fn build_bucket(sorted: &Vec<(u32, PublicLogItem)>, em: u32, w: u32, k: &String) -> (r: Vec<
    PublicLogItem,
>)
    requires
        forall|j: int| 0 <= j < sorted.deep_view().len() ==> (#[trigger] sorted.deep_view()[j]).0 >= em,
    ensures
        r.deep_view() == spec_week_bucket(sorted.deep_view(), em as int, w as int, k@),
{
    let ghost sdv = sorted.deep_view();
    let ghost pred = |p: (u32, PublicLogItemView)|
        spec_week_index(p.0, em as int) == w as int && spec_col_kind(p.1.kind) == Some(k@);
    let mut bucket: Vec<PublicLogItem> = Vec::new();
    let n = sorted.len();
    for i in 0..n
        invariant
            n == sorted.len(),
            sdv == sorted.deep_view(),
            forall|j: int| 0 <= j < sdv.len() ==> (#[trigger] sdv[j]).0 >= em,
            bucket.deep_view() == sdv.subrange(0, i as int).filter(pred).map_values(
                |p: (u32, PublicLogItemView)| p.1,
            ),
    {
        let p = &sorted[i];
        proof {
            assert(sdv[i as int] == (p.0, p.1@));
            assert(sdv.subrange(0, i + 1) =~= sdv.subrange(0, i as int).push(sdv[i as int]));
            lemma_filter_push(sdv.subrange(0, i as int), sdv[i as int], pred);
        }
        let wk = (p.0 - em) / 7;
        let ck = col_kind(p.1.kind.as_str());
        let col_matches = match ck {
            Some(cs) => str_eq(cs, k.as_str()),
            None => false,
        };
        proof {
            assert(sdv[i as int].0 >= em);
            assert(wk as int == spec_week_index(sdv[i as int].0, em as int));
            assert(col_matches == (spec_col_kind(sdv[i as int].1.kind) == Some(k@)));
            assert(pred(sdv[i as int]) == (spec_week_index(sdv[i as int].0, em as int)
                == w as int && spec_col_kind(sdv[i as int].1.kind) == Some(k@)));
            assert((wk == w) == (spec_week_index(sdv[i as int].0, em as int) == w as int));
            assert((wk == w && col_matches) == pred(sdv[i as int]));
        }
        if wk == w && col_matches {
            let ghost before = bucket.deep_view();
            bucket.push(p.1.duplicate());
            proof {
                assert(bucket.deep_view() =~= before.push(sdv[i as int].1));
                assert(sdv.subrange(0, i as int).filter(pred).push(sdv[i as int]).map_values(
                    |q: (u32, PublicLogItemView)| q.1,
                ) =~= sdv.subrange(0, i as int).filter(pred).map_values(
                    |q: (u32, PublicLogItemView)| q.1,
                ).push(sdv[i as int].1));
            }
        }
    }
    proof {
        assert(sdv.subrange(0, sdv.len() as int) =~= sdv);
    }
    bucket
}

/// Build the columns of one week, one per active kind in order.
#[verifier::loop_isolation(false)]
fn build_week_columns(
    sorted: &Vec<(u32, PublicLogItem)>,
    active: &Vec<String>,
    em: u32,
    w: u32,
) -> (r: Vec<(String, Vec<PublicLogItem>)>)
    requires
        forall|j: int| 0 <= j < sorted.deep_view().len() ==> (#[trigger] sorted.deep_view()[j]).0 >= em,
    ensures
        r.deep_view() == active.deep_view().map_values(
            |k: Seq<char>| (k, spec_week_bucket(sorted.deep_view(), em as int, w as int, k)),
        ),
{
    let ghost sdv = sorted.deep_view();
    let ghost f = |k: Seq<char>| (k, spec_week_bucket(sdv, em as int, w as int, k));
    let mut cols: Vec<(String, Vec<PublicLogItem>)> = Vec::new();
    let n = active.len();
    for c in 0..n
        invariant
            n == active.len(),
            sdv == sorted.deep_view(),
            forall|j: int| 0 <= j < sdv.len() ==> (#[trigger] sdv[j]).0 >= em,
            cols.deep_view() == active.deep_view().subrange(0, c as int).map_values(f),
    {
        let k = &active[c];
        let bucket = build_bucket(sorted, em, w, k);
        let ghost before = cols.deep_view();
        let ghost bv = bucket.deep_view();
        cols.push((k.clone(), bucket));
        proof {
            assert(active.deep_view()[c as int] == active@[c as int]@);
            assert(f(active.deep_view()[c as int]) == (k@, bv));
            assert(cols.deep_view() =~= before.push(f(active.deep_view()[c as int])));
            assert(active.deep_view().subrange(0, c + 1).map_values(f) =~= active.deep_view()
                .subrange(0, c as int).map_values(f).push(f(active.deep_view()[c as int])));
        }
    }
    proof {
        assert(active.deep_view().subrange(0, active.deep_view().len() as int) =~= active.deep_view());
    }
    cols
}

/// Split the items into the unscheduled sidebar and the day-sorted
/// run of dated pairs; items whose date string does not parse are
/// dropped.
#[verifier::loop_isolation(false)]
#[verifier::rlimit(100)]
fn partition_items(
    items: &Vec<LogItem>,
    show_lecture_links: bool,
    cached_translations: &TranslationCache,
    use_transliteration: bool,
) -> (r: (Vec<PublicLogItem>, Vec<(u32, PublicLogItem)>))
    ensures
        r.0.deep_view() == spec_unscheduled(
            items.deep_view(),
            show_lecture_links,
            cached_translations@,
            use_transliteration,
        ),
        r.1.deep_view() == spec_sort_dated(
            spec_dated_pairs(
                items.deep_view(),
                show_lecture_links,
                cached_translations@,
                use_transliteration,
            ),
        ),
        spec_sorted_dated(r.1.deep_view()),
        spec_keys_in_range(r.1.deep_view()),
{
    let ghost iv = items.deep_view();
    let ghost m = cached_translations@;
    let ghost undated_pred = |x: LogItemView| spec_undated(x);
    let ghost dated_pred = |x: LogItemView| spec_item_day(x) is Some;
    let ghost pub_f = |x: LogItemView|
        spec_to_public(x, show_lecture_links, m, use_transliteration);
    let ghost pair_f = |x: LogItemView|
        (spec_item_day(x).unwrap(), spec_to_public(x, show_lecture_links, m, use_transliteration));

    let mut unscheduled: Vec<PublicLogItem> = Vec::new();
    let mut sorted: Vec<(u32, PublicLogItem)> = Vec::new();

    let n = items.len();
    for i in 0..n
        invariant
            unscheduled.deep_view() == spec_unscheduled(
                iv.subrange(0, i as int),
                show_lecture_links,
                m,
                use_transliteration,
            ),
            sorted.deep_view() == spec_sort_dated(
                spec_dated_pairs(
                    iv.subrange(0, i as int),
                    show_lecture_links,
                    m,
                    use_transliteration,
                ),
            ),
            spec_sorted_dated(sorted.deep_view()),
            spec_keys_in_range(sorted.deep_view()),
    {
        let it = &items[i];
        let ghost prefix = iv.subrange(0, i as int);
        proof {
            assert(iv[i as int] == it@);
            assert(iv.subrange(0, i + 1) =~= prefix.push(it@));
            lemma_filter_push(prefix, it@, undated_pred);
            lemma_filter_push(prefix, it@, dated_pred);
        }

        let mut undated = false;
        let mut day: Option<u32> = None;
        match &it.date {
            None => {
                undated = true;
            },
            Some(d) => {
                if d.as_str().is_empty() {
                    undated = true;
                } else {
                    match parse_iso_date(d.as_str()) {
                        Some(dt) => {
                            day = Some(day_number(dt));
                        },
                        None => {},
                    }
                }
            },
        }
        proof {
            assert(undated == spec_undated(it@));
            assert(day == spec_item_day(it@));
        }

        if undated {
            let p = to_public(it, show_lecture_links, cached_translations, use_transliteration);
            let ghost before = unscheduled.deep_view();
            unscheduled.push(p);
            proof {
                assert(unscheduled.deep_view() =~= before.push(pub_f(it@)));
                assert(prefix.filter(undated_pred).push(it@).map_values(pub_f) =~= prefix.filter(
                    undated_pred,
                ).map_values(pub_f).push(pub_f(it@)));
            }
        } else if let Some(dn) = day {
            let p = to_public(it, show_lecture_links, cached_translations, use_transliteration);
            let ghost before = sorted.deep_view();
            let ghost pairs = prefix.filter(dated_pred).map_values(pair_f);
            proof {
                lemma_insert_dated_props(before, pair_f(it@));
                assert(prefix.filter(dated_pred).push(it@).map_values(pair_f) =~= pairs.push(
                    pair_f(it@),
                ));
                assert(pairs.push(pair_f(it@)).drop_last() =~= pairs);
            }
            insert_dated(&mut sorted, dn, p);
        }
    }
    proof {
        assert(iv.subrange(0, n as int) =~= iv);
    }
    (unscheduled, sorted)
}

/// The active kinds of a sorted run, as strings in canonical order.
#[verifier::rlimit(100)]
fn active_kinds(sorted: &Vec<(u32, PublicLogItem)>) -> (r: Vec<String>)
    ensures
        r.deep_view() == spec_active_kinds(sorted.deep_view()),
{
    let ghost sdv = sorted.deep_view();
    let mut active: Vec<String> = Vec::new();
    let ghost a1: Seq<Seq<char>> = if spec_kind_active(sdv, "Lecture"@) {
        seq!["Lecture"@]
    } else {
        Seq::empty()
    };
    if kind_is_active(sorted, "Lecture") {
        active.push(String::from_str("Lecture"));
    }
    proof {
        assert(active.deep_view() =~= a1);
    }
    let ghost a2 = a1 + (if spec_kind_active(sdv, "Discussion"@) {
        seq!["Discussion"@]
    } else {
        Seq::empty()
    });
    if kind_is_active(sorted, "Discussion") {
        active.push(String::from_str("Discussion"));
    }
    proof {
        assert(active.deep_view() =~= a2);
    }
    let ghost a3 = a2 + (if spec_kind_active(sdv, "Lab"@) {
        seq!["Lab"@]
    } else {
        Seq::empty()
    });
    if kind_is_active(sorted, "Lab") {
        active.push(String::from_str("Lab"));
    }
    proof {
        assert(active.deep_view() =~= a3);
    }
    let ghost a4 = a3 + (if spec_kind_active(sdv, "Homework"@) {
        seq!["Homework"@]
    } else {
        Seq::empty()
    });
    if kind_is_active(sorted, "Homework") {
        active.push(String::from_str("Homework"));
    }
    proof {
        assert(active.deep_view() =~= a4);
    }
    let ghost a5 = a4 + (if spec_kind_active(sdv, "Quiz"@) {
        seq!["Quiz"@]
    } else {
        Seq::empty()
    });
    if kind_is_active(sorted, "Quiz") {
        active.push(String::from_str("Quiz"));
    }
    proof {
        assert(active.deep_view() =~= a5);
    }
    let ghost a6 = a5 + (if spec_kind_active(sdv, "Midterm"@) {
        seq!["Midterm"@]
    } else {
        Seq::empty()
    });
    if kind_is_active(sorted, "Midterm") {
        active.push(String::from_str("Midterm"));
    }
    proof {
        assert(active.deep_view() =~= a6);
    }
    let ghost a7 = a6 + (if spec_kind_active(sdv, "Other"@) {
        seq!["Other"@]
    } else {
        Seq::empty()
    });
    if kind_is_active(sorted, "Other") {
        active.push(String::from_str("Other"));
    }
    proof {
        assert(active.deep_view() =~= a7);
        assert(active.deep_view() == spec_active_kinds(sdv));
    }
    active
}

/// Emit the weeks from the epoch week through the week holding `last`.
#[verifier::loop_isolation(false)]
fn build_weeks(
    sorted: &Vec<(u32, PublicLogItem)>,
    active: &Vec<String>,
    em: u32,
    maxw: u32,
) -> (r: Vec<CalendarWeek>)
    requires
        active.deep_view() == spec_active_kinds(sorted.deep_view()),
        forall|j: int| 0 <= j < sorted.deep_view().len() ==> (#[trigger] sorted.deep_view()[j]).0 >= em,
        em + 7 * (maxw as int) + 6 < 4000007,
    ensures
        r.deep_view() == Seq::new(
            (maxw + 1) as nat,
            |ww: int| spec_week(sorted.deep_view(), em as int, ww),
        ),
{
    let ghost sdv = sorted.deep_view();
    let mut weeks: Vec<CalendarWeek> = Vec::new();
    let mut w: u32 = 0;
    while w <= maxw
        invariant
            w <= maxw + 1,
            weeks.deep_view() == Seq::new(w as nat, |ww: int| spec_week(sdv, em as int, ww)),
        decreases maxw + 1 - w,
    {
        proof {
            assert(7 * w <= 7 * maxw) by (nonlinear_arith)
                requires
                    w <= maxw,
            ;
        }
        let start = format_month_day(em + 7 * w);
        let end = format_month_day(em + 7 * w + 6);
        let cols = build_week_columns(sorted, active, em, w);
        let ghost before = weeks.deep_view();
        weeks.push(
            CalendarWeek { week_number: w + 1, start_date: start, end_date: end, items_by_kind: cols },
        );
        proof {
            assert(weeks.deep_view() =~= before.push(spec_week(sdv, em as int, w as int)));
            assert(Seq::new((w + 1) as nat, |ww: int| spec_week(sdv, em as int, ww)) =~= Seq::new(
                w as nat,
                |ww: int| spec_week(sdv, em as int, ww),
            ).push(spec_week(sdv, em as int, w as int)));
        }
        w = w + 1;
    }
    weeks
}

/// Build the public calendar from a flat list of log items: one week
/// per zero-based index from the epoch week through the week of the
/// latest dated item (gap weeks included, with empty columns), the
/// unscheduled sidebar, and the active kinds.
pub fn build_calendar(
    items: &Vec<LogItem>,
    show_lecture_links: bool,
    cached_translations: &TranslationCache,
    use_transliteration: bool,
) -> (r: (Vec<CalendarWeek>, Vec<PublicLogItem>, Vec<String>))
    ensures
        ({
            let out = spec_build_calendar(
                items.deep_view(),
                show_lecture_links,
                cached_translations@,
                use_transliteration,
            );
            &&& r.0.deep_view() == out.0
            &&& r.1.deep_view() == out.1
            &&& r.2.deep_view() == out.2
        }),
{
    let ghost iv = items.deep_view();
    let ghost m = cached_translations@;
    let (unscheduled, sorted) = partition_items(
        items,
        show_lecture_links,
        cached_translations,
        use_transliteration,
    );
    let ghost sdv = sorted.deep_view();

    if sorted.len() == 0 {
        let weeks: Vec<CalendarWeek> = Vec::new();
        let active: Vec<String> = Vec::new();
        proof {
            assert(weeks.deep_view() =~= Seq::<CalendarWeekView>::empty());
            assert(active.deep_view() =~= Seq::<Seq<char>>::empty());
        }
        return (weeks, unscheduled, active);
    }

    let epoch = sorted[0].0;
    proof {
        assert(sdv[0] == (sorted@[0].0, sorted@[0].1@));
        assert(7 <= sdv[0].0 < 4000000);
    }
    let wd = weekday_from_monday(epoch);
    let em: u32 = epoch - wd;
    let last = sorted[sorted.len() - 1].0;
    proof {
        assert(sdv[sdv.len() - 1] == (sorted@[sorted@.len() - 1].0, sorted@[sorted@.len() - 1].1@));
        assert(sdv[0].0 <= sdv[sdv.len() - 1].0);
        assert(7 <= sdv[sdv.len() - 1].0 < 4000000);
        assert forall|j: int| 0 <= j < sdv.len() implies (#[trigger] sdv[j]).0 >= em by {
            assert(sdv[0].0 <= sdv[j].0);
        }
    }
    let maxw: u32 = (last - em) / 7;
    proof {
        assert(7 * (maxw as int) <= last - em);
    }

    let active = active_kinds(&sorted);
    let weeks = build_weeks(&sorted, &active, em, maxw);
    proof {
        let out = spec_build_calendar(iv, show_lecture_links, m, use_transliteration);
        assert(out.0 =~= weeks.deep_view());
    }
    (weeks, unscheduled, active)
}

/// Building the calendar is deterministic: two outputs built from
/// identical items, flags and cache snapshot are identical in every
/// part, so calling the builder twice with unchanged inputs yields
/// structurally identical output.
pub proof fn lemma_build_calendar_deterministic(
    items: Seq<LogItemView>,
    show: bool,
    m: Map<Seq<char>, Seq<char>>,
    use_t: bool,
    out1: (Seq<CalendarWeekView>, Seq<PublicLogItemView>, Seq<Seq<char>>),
    out2: (Seq<CalendarWeekView>, Seq<PublicLogItemView>, Seq<Seq<char>>),
)
    requires
        out1 == spec_build_calendar(items, show, m, use_t),
        out2 == spec_build_calendar(items, show, m, use_t),
    ensures
        out1 == out2,
{
}

/// Week contiguity: with at least one dated item, the calendar holds
/// one week per zero-based index from the epoch week through the week
/// of the latest dated item, numbered consecutively from 1; every week
/// carries exactly one column per active kind, in order, with the
/// filter bucket of that week and kind (empty where nothing falls);
/// and every dated item's week index lies within the emitted range.
pub proof fn lemma_weeks_contiguous(
    items: Seq<LogItemView>,
    show: bool,
    m: Map<Seq<char>, Seq<char>>,
    use_t: bool,
)
    requires
        spec_sort_dated(spec_dated_pairs(items, show, m, use_t)).len() > 0,
    ensures
        ({
            let sorted = spec_sort_dated(spec_dated_pairs(items, show, m, use_t));
            let epoch = sorted[0].0;
            let em = epoch - spec_weekday_from_monday(epoch as int);
            let maxw = spec_week_index(sorted.last().0, em);
            let weeks = spec_build_calendar(items, show, m, use_t).0;
            let active = spec_active_kinds(sorted);
            &&& maxw >= 0
            &&& weeks.len() == maxw + 1
            &&& (forall|k: int| 0 <= k < weeks.len() ==> (#[trigger] weeks[k]).week_number == k + 1)
            &&& (forall|k: int|
                0 <= k < weeks.len() ==> (#[trigger] weeks[k]).items_by_kind.len() == active.len())
            &&& (forall|k: int, c: int|
                0 <= k < weeks.len() && 0 <= c < active.len() ==> (#[trigger] weeks[k].items_by_kind[c])
                    == (active[c], spec_week_bucket(sorted, em, k, active[c])))
            &&& (forall|j: int|
                0 <= j < sorted.len() ==> 0 <= spec_week_index((#[trigger] sorted[j]).0, em) <= maxw)
        }),
{
    let pairs = spec_dated_pairs(items, show, m, use_t);
    lemma_sort_dated_props(pairs);
    let sorted = spec_sort_dated(pairs);
    let epoch = sorted[0].0;
    let em = epoch - spec_weekday_from_monday(epoch as int);
    let maxw = spec_week_index(sorted.last().0, em);
    assert(sorted.last() == sorted[sorted.len() - 1]);
    assert(epoch <= sorted.last().0);
    assert(0 <= spec_weekday_from_monday(epoch as int) < 7);
    assert(maxw >= 0);
    let weeks = spec_build_calendar(items, show, m, use_t).0;
    let active = spec_active_kinds(sorted);
    assert forall|k: int, c: int|
        0 <= k < weeks.len() && 0 <= c < active.len() implies (#[trigger] weeks[k].items_by_kind[c])
        == (active[c], spec_week_bucket(sorted, em, k, active[c])) by {
        assert(weeks[k] == spec_week(sorted, em, k));
    }
    assert forall|j: int|
        0 <= j < sorted.len() implies 0 <= spec_week_index((#[trigger] sorted[j]).0, em)
        <= maxw by {
        assert(epoch <= sorted[j].0);
        assert(sorted[j].0 <= sorted[sorted.len() - 1].0);
    }
}

} // verus!
