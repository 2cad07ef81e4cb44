//! Rule-based transliteration of Chinese academic titles into
//! canonical English labels: a fixed kind table, numbered-session
//! patterns, exam patterns, and kind-name prefixes with an optional
//! section letter.

use vstd::prelude::*;
use vstd::string::StrSliceExecFns;
use vstd::string::StringExecFns;
use crate::numerals::spec_chinese_num;
use crate::numerals::spec_suffix_letter;
use crate::numerals::chinese_num_to_int;
use crate::numerals::chinese_suffix_to_letter;
use crate::text::spec_starts_with;
use crate::text::spec_dec;
use crate::text::has_prefix;
use crate::text::str_eq;
use crate::text::u32_to_string;

verus! {

/// The canonical English noun for a log-item kind; anything outside
/// the fixed table is `Other`.
pub open spec fn spec_en_kind(kind: Seq<char>) -> Seq<char> {
    if kind == "Lecture"@ {
        "Lecture"@
    } else if kind == "Discussion"@ {
        "Discussion"@
    } else if kind == "Lab"@ {
        "Lab"@
    } else if kind == "Homework"@ {
        "Homework"@
    } else if kind == "Quiz"@ {
        "Quiz"@
    } else if kind == "Midterm"@ {
        "Midterm"@
    } else if kind == "Final"@ {
        "Final"@
    } else if kind == "Project"@ {
        "Project"@
    } else {
        "Other"@
    }
}

/// An English name followed by a space and a number.
pub open spec fn spec_numbered(name: Seq<char>, n: u32) -> Seq<char> {
    name + seq![' '] + spec_dec(n)
}

/// The numbered-session rules: the title is the ordinal prefix
/// character, a numeral, and the given session suffix character.
pub open spec fn spec_rule_session(title: Seq<char>, suffix: char) -> Option<u32> {
    if title.len() >= 2 && title[0] == '第' && title[title.len() - 1] == suffix {
        spec_chinese_num(title.subrange(1, title.len() - 1))
    } else {
        None
    }
}

/// The exam rules: a literal exam prefix followed by nothing (the bare
/// name) or by a numeral (the numbered name).
pub open spec fn spec_rule_exam(title: Seq<char>, prefix: Seq<char>, name: Seq<char>) -> Option<
    Seq<char>,
> {
    if spec_starts_with(title, prefix) {
        let rest = title.subrange(prefix.len() as int, title.len() as int);
        if rest.len() == 0 {
            Some(name)
        } else if spec_chinese_num(rest) is Some {
            Some(spec_numbered(name, spec_chinese_num(rest).unwrap()))
        } else {
            None
        }
    } else {
        None
    }
}

/// The kind-name prefix rules: a Chinese kind name followed by nothing,
/// by a numeral, or by a numeral and a section-marker letter.
pub open spec fn spec_rule_kind_prefix(title: Seq<char>, prefix: Seq<char>, name: Seq<char>) -> Option<
    Seq<char>,
> {
    if spec_starts_with(title, prefix) {
        let rest = title.subrange(prefix.len() as int, title.len() as int);
        if rest.len() == 0 {
            Some(name)
        } else {
            let lastc = rest[rest.len() - 1];
            if spec_suffix_letter(lastc) is Some {
                let numeral = rest.subrange(0, rest.len() - 1);
                if spec_chinese_num(numeral) is Some {
                    Some(
                        spec_numbered(name, spec_chinese_num(numeral).unwrap()).push(
                            spec_suffix_letter(lastc).unwrap(),
                        ),
                    )
                } else {
                    None
                }
            } else if spec_chinese_num(rest) is Some {
                Some(spec_numbered(name, spec_chinese_num(rest).unwrap()))
            } else {
                None
            }
        }
    } else {
        None
    }
}

/// Some title-pattern rule matches the title and parses completely, so
/// the transliteration is not the verbatim fallback.
pub open spec fn spec_rule_applies(title: Seq<char>) -> bool {
    ||| spec_rule_session(title, '讲') is Some
    ||| spec_rule_session(title, '次') is Some
    ||| spec_rule_exam(title, "期中考试"@, "Midterm"@) is Some
    ||| spec_rule_exam(title, "期末考试"@, "Final"@) is Some
    ||| spec_rule_kind_prefix(title, "作业"@, "Homework"@) is Some
    ||| spec_rule_kind_prefix(title, "测验"@, "Quiz"@) is Some
    ||| spec_rule_kind_prefix(title, "实验"@, "Lab"@) is Some
    ||| spec_rule_kind_prefix(title, "讨论"@, "Discussion"@) is Some
    ||| spec_rule_kind_prefix(title, "讲座"@, "Lecture"@) is Some
    ||| spec_rule_kind_prefix(title, "项目"@, "Project"@) is Some
}

/// The transliteration of a `(kind, title)` pair: the rules are tried
/// in a fixed priority order, and a title that no rule matches comes
/// back verbatim.
pub open spec fn spec_transliterate(kind: Seq<char>, title: Seq<char>) -> Seq<char> {
    let ek = spec_en_kind(kind);
    if spec_rule_session(title, '讲') is Some {
        spec_numbered(ek, spec_rule_session(title, '讲').unwrap())
    } else if spec_rule_session(title, '次') is Some {
        spec_numbered(ek, spec_rule_session(title, '次').unwrap())
    } else if spec_rule_exam(title, "期中考试"@, "Midterm"@) is Some {
        spec_rule_exam(title, "期中考试"@, "Midterm"@).unwrap()
    } else if spec_rule_exam(title, "期末考试"@, "Final"@) is Some {
        spec_rule_exam(title, "期末考试"@, "Final"@).unwrap()
    } else if spec_rule_kind_prefix(title, "作业"@, "Homework"@) is Some {
        spec_rule_kind_prefix(title, "作业"@, "Homework"@).unwrap()
    } else if spec_rule_kind_prefix(title, "测验"@, "Quiz"@) is Some {
        spec_rule_kind_prefix(title, "测验"@, "Quiz"@).unwrap()
    } else if spec_rule_kind_prefix(title, "实验"@, "Lab"@) is Some {
        spec_rule_kind_prefix(title, "实验"@, "Lab"@).unwrap()
    } else if spec_rule_kind_prefix(title, "讨论"@, "Discussion"@) is Some {
        spec_rule_kind_prefix(title, "讨论"@, "Discussion"@).unwrap()
    } else if spec_rule_kind_prefix(title, "讲座"@, "Lecture"@) is Some {
        spec_rule_kind_prefix(title, "讲座"@, "Lecture"@).unwrap()
    } else if spec_rule_kind_prefix(title, "项目"@, "Project"@) is Some {
        spec_rule_kind_prefix(title, "项目"@, "Project"@).unwrap()
    } else {
        title
    }
}

/// The transliterator falls back to the identity: a title that no rule
/// matches is returned exactly as it came in, whatever the kind.
pub proof fn lemma_transliterate_no_match_identity(kind: Seq<char>, title: Seq<char>)
    requires
        !spec_rule_applies(title),
    ensures
        spec_transliterate(kind, title) == title,
{
}

/// The canonical English noun for a kind.
pub fn kind_to_english(kind: &str) -> (r: &'static str)
    ensures
        r@ == spec_en_kind(kind@),
{
    if str_eq(kind, "Lecture") {
        "Lecture"
    } else if str_eq(kind, "Discussion") {
        "Discussion"
    } else if str_eq(kind, "Lab") {
        "Lab"
    } else if str_eq(kind, "Homework") {
        "Homework"
    } else if str_eq(kind, "Quiz") {
        "Quiz"
    } else if str_eq(kind, "Midterm") {
        "Midterm"
    } else if str_eq(kind, "Final") {
        "Final"
    } else if str_eq(kind, "Project") {
        "Project"
    } else {
        "Other"
    }
}

/// The one-character string for a section letter.
fn letter_str(c: char) -> (r: &'static str)
    requires
        c == 'A' || c == 'B' || c == 'C',
    ensures
        r@ == seq![c],
{
    proof {
        reveal_strlit("A");
        reveal_strlit("B");
        reveal_strlit("C");
    }
    if c == 'A' {
        "A"
    } else if c == 'B' {
        "B"
    } else {
        "C"
    }
}

/// Build an English name followed by a space and a number.
fn numbered_label(name: &str, n: u32) -> (r: String)
    ensures
        r@ == spec_numbered(name@, n),
{
    let mut s = String::from_str(name);
    proof {
        reveal_strlit(" ");
    }
    s.append(" ");
    let digits = u32_to_string(n);
    s.append(digits.as_str());
    proof {
        assert(s@ =~= spec_numbered(name@, n));
    }
    s
}

/// Apply one exam rule to a title.
fn apply_exam_rule(title: &str, prefix: &str, name: &str) -> (r: Option<String>)
    ensures
        r.deep_view() == spec_rule_exam(title@, prefix@, name@),
{
    if !has_prefix(title, prefix) {
        return None;
    }
    let n = title.unicode_len();
    let pl = prefix.unicode_len();
    if pl == n {
        return Some(String::from_str(name));
    }
    let rest = title.substring_char(pl, n);
    if let Some(v) = chinese_num_to_int(rest) {
        return Some(numbered_label(name, v));
    }
    None
}

/// Apply one kind-name prefix rule to a title.
fn apply_kind_prefix_rule(title: &str, prefix: &str, name: &str) -> (r: Option<String>)
    ensures
        r.deep_view() == spec_rule_kind_prefix(title@, prefix@, name@),
{
    if !has_prefix(title, prefix) {
        return None;
    }
    let n = title.unicode_len();
    let pl = prefix.unicode_len();
    if pl == n {
        return Some(String::from_str(name));
    }
    let rest = title.substring_char(pl, n);
    let rl = rest.unicode_len();
    let lastc = rest.get_char(rl - 1);
    if let Some(letter) = chinese_suffix_to_letter(lastc) {
        let numeral = rest.substring_char(0, rl - 1);
        if let Some(v) = chinese_num_to_int(numeral) {
            let mut s = numbered_label(name, v);
            s.append(letter_str(letter));
            proof {
                assert(s@ =~= spec_numbered(name@, v).push(letter));
            }
            return Some(s);
        }
        return None;
    }
    if let Some(v) = chinese_num_to_int(rest) {
        return Some(numbered_label(name, v));
    }
    None
}

/// Translate a log-item title algorithmically from its kind and title:
/// the numbered-session rules, then the exam rules, then the kind-name
/// prefix rules, and the verbatim title when nothing matches.
pub fn translate_title_algorithmic(kind: &str, title: &str) -> (r: String)
    ensures
        r@ == spec_transliterate(kind@, title@),
{
    let en_kind = kind_to_english(kind);
    let n = title.unicode_len();

    if n >= 2 && title.get_char(0) == '第' {
        let lastc = title.get_char(n - 1);
        if lastc == '讲' {
            if let Some(v) = chinese_num_to_int(title.substring_char(1, n - 1)) {
                return numbered_label(en_kind, v);
            }
        }
        if lastc == '次' {
            if let Some(v) = chinese_num_to_int(title.substring_char(1, n - 1)) {
                return numbered_label(en_kind, v);
            }
        }
    }

    if let Some(s) = apply_exam_rule(title, "期中考试", "Midterm") {
        return s;
    }
    if let Some(s) = apply_exam_rule(title, "期末考试", "Final") {
        return s;
    }
    if let Some(s) = apply_kind_prefix_rule(title, "作业", "Homework") {
        return s;
    }
    if let Some(s) = apply_kind_prefix_rule(title, "测验", "Quiz") {
        return s;
    }
    if let Some(s) = apply_kind_prefix_rule(title, "实验", "Lab") {
        return s;
    }
    if let Some(s) = apply_kind_prefix_rule(title, "讨论", "Discussion") {
        return s;
    }
    if let Some(s) = apply_kind_prefix_rule(title, "讲座", "Lecture") {
        return s;
    }
    if let Some(s) = apply_kind_prefix_rule(title, "项目", "Project") {
        return s;
    }
    String::from_str(title)
}

} // verus!
