use course_log::calendar::FIRST_PARTY_DOMAIN;
use course_log::calendar::LECTURE_LINK_DOMAIN;
use course_log::calendar::build_calendar;
use course_log::calendar::to_public;
use course_log::dates::Date;
use course_log::dates::day_number;
use course_log::dates::format_month_day;
use course_log::dates::parse_iso_date;
use course_log::dates::weekday_from_monday;
use course_log::gateway::TranslationCache;
use course_log::models::LogItem;

fn item(id: i64, kind: &str, title: &str, date: Option<&str>) -> LogItem {
    LogItem {
        id,
        course_id: 1,
        kind: kind.to_string(),
        title: title.to_string(),
        description: None,
        link: None,
        date: date.map(|d| d.to_string()),
    }
}

#[test]
fn parse_dates_valid_and_invalid() {
    assert_eq!(
        parse_iso_date("2024-01-15"),
        Some(Date { year: 2024, month: 1, day: 15 })
    );
    // leap day exists in 2024 but not in 2023
    assert!(parse_iso_date("2024-02-29").is_some());
    assert_eq!(parse_iso_date("2023-02-29"), None);
    assert_eq!(parse_iso_date("2024-13-01"), None);
    assert_eq!(parse_iso_date("2024-00-10"), None);
    assert_eq!(parse_iso_date("2024-04-31"), None);
    assert_eq!(parse_iso_date("2024-1-01"), None);
    assert_eq!(parse_iso_date("2024/01/01"), None);
    assert_eq!(parse_iso_date(""), None);
}

#[test]
fn day_numbers_step_across_boundaries() {
    let dn = |s: &str| day_number(parse_iso_date(s).unwrap());
    assert_eq!(dn("2024-01-16"), dn("2024-01-15") + 1);
    assert_eq!(dn("2024-02-01"), dn("2024-01-31") + 1);
    assert_eq!(dn("2024-02-29"), dn("2024-02-28") + 1);
    assert_eq!(dn("2024-03-01"), dn("2024-02-29") + 1);
    assert_eq!(dn("2023-03-01"), dn("2023-02-28") + 1);
    assert_eq!(dn("2024-01-01"), dn("2023-12-31") + 1);
}

#[test]
fn weekdays_match_the_civil_calendar() {
    let dn = |s: &str| day_number(parse_iso_date(s).unwrap());
    // 2024-01-15 was a Monday, 2024-01-17 a Wednesday,
    // 2024-02-29 a Thursday, 2024-01-21 a Sunday
    assert_eq!(weekday_from_monday(dn("2024-01-15")), 0);
    assert_eq!(weekday_from_monday(dn("2024-01-17")), 2);
    assert_eq!(weekday_from_monday(dn("2024-02-29")), 3);
    assert_eq!(weekday_from_monday(dn("2024-01-21")), 6);
}

#[test]
fn short_format_names_month_and_day() {
    let dn = |s: &str| day_number(parse_iso_date(s).unwrap());
    assert_eq!(format_month_day(dn("2024-01-15")), "Jan 15");
    assert_eq!(format_month_day(dn("2024-02-05")), "Feb 5");
    assert_eq!(format_month_day(dn("2024-12-31")), "Dec 31");
    assert_eq!(format_month_day(dn("2000-03-01")), "Mar 1");
}

#[test]
fn calendar_of_no_items_is_empty() {
    let cache = TranslationCache::new();
    let (weeks, unscheduled, active) = build_calendar(&Vec::new(), false, &cache, false);
    assert!(weeks.is_empty());
    assert!(unscheduled.is_empty());
    assert!(active.is_empty());
}

#[test]
fn calendar_weeks_are_contiguous_with_gaps_filled() {
    let cache = TranslationCache::new();
    // items in the first and fourth week only; the epoch Wednesday
    // pulls the week start back to Monday, Jan 15
    let items = vec![
        item(1, "Lecture", "Intro", Some("2024-01-17")),
        item(2, "Homework", "HW", Some("2024-02-05")),
    ];
    let (weeks, unscheduled, active) = build_calendar(&items, false, &cache, false);
    assert!(unscheduled.is_empty());
    assert_eq!(active, vec!["Lecture".to_string(), "Homework".to_string()]);
    assert_eq!(weeks.len(), 4);
    for (i, week) in weeks.iter().enumerate() {
        assert_eq!(week.week_number as usize, i + 1);
        let kinds: Vec<String> = week.items_by_kind.iter().map(|c| c.0.clone()).collect();
        assert_eq!(kinds, vec!["Lecture".to_string(), "Homework".to_string()]);
    }
    assert_eq!(weeks[0].start_date, "Jan 15");
    assert_eq!(weeks[0].end_date, "Jan 21");
    assert_eq!(weeks[3].start_date, "Feb 5");
    assert_eq!(weeks[3].end_date, "Feb 11");
    // the two middle weeks are present with empty columns
    for w in [1, 2] {
        for (_, items) in &weeks[w].items_by_kind {
            assert!(items.is_empty());
        }
    }
    assert_eq!(weeks[0].items_by_kind[0].1.len(), 1);
    assert_eq!(weeks[0].items_by_kind[0].1[0].id, 1);
    assert!(weeks[0].items_by_kind[1].1.is_empty());
    assert_eq!(weeks[3].items_by_kind[1].1.len(), 1);
    assert_eq!(weeks[3].items_by_kind[1].1[0].id, 2);
}

#[test]
fn calendar_is_idempotent() {
    let mut cache = TranslationCache::new();
    cache.insert("你好".to_string(), "hello".to_string());
    let items = vec![
        item(1, "Lecture", "第一讲", Some("2024-01-17")),
        item(2, "Quiz", "测验一", Some("2024-01-22")),
        item(3, "Other", "Notes", None),
    ];
    let first = build_calendar(&items, true, &cache, true);
    let second = build_calendar(&items, true, &cache, true);
    assert_eq!(first.0, second.0);
    assert_eq!(first.1, second.1);
    assert_eq!(first.2, second.2);
}

#[test]
fn calendar_sorts_and_buckets_by_date() {
    let cache = TranslationCache::new();
    let items = vec![
        item(1, "Lecture", "B", Some("2024-01-18")),
        item(2, "Lecture", "A", Some("2024-01-16")),
        item(3, "Lecture", "C", Some("2024-01-16")),
    ];
    let (weeks, _, _) = build_calendar(&items, false, &cache, false);
    assert_eq!(weeks.len(), 1);
    let lectures = &weeks[0].items_by_kind[0].1;
    // ascending by date, stable for equal dates
    let titles: Vec<&str> = lectures.iter().map(|p| p.title.as_str()).collect();
    assert_eq!(titles, vec!["A", "C", "B"]);
}

#[test]
fn calendar_partitions_unscheduled_and_drops_bad_dates() {
    let cache = TranslationCache::new();
    let items = vec![
        item(1, "Other", "no date", None),
        item(2, "Other", "empty date", Some("")),
        item(3, "Other", "bad date", Some("2024-13-99")),
        item(4, "Lecture", "dated", Some("2024-01-16")),
    ];
    let (weeks, unscheduled, active) = build_calendar(&items, false, &cache, false);
    let titles: Vec<&str> = unscheduled.iter().map(|p| p.title.as_str()).collect();
    // the unparseable date is dropped entirely, not re-added here
    assert_eq!(titles, vec!["no date", "empty date"]);
    assert_eq!(active, vec!["Lecture".to_string()]);
    assert_eq!(weeks.len(), 1);
    assert_eq!(weeks[0].items_by_kind[0].1.len(), 1);
}

#[test]
fn calendar_excludes_final_and_project_from_columns() {
    let cache = TranslationCache::new();
    let items = vec![
        item(1, "Final", "期末考试", Some("2024-01-16")),
        item(2, "Project", "项目一", Some("2024-01-17")),
        item(3, "Homework", "作业一", Some("2024-01-18")),
        item(4, "Mystery", "anything", Some("2024-01-18")),
    ];
    let (weeks, _, active) = build_calendar(&items, false, &cache, false);
    // Final and Project have no column; an unknown kind renders under Other
    assert_eq!(active, vec!["Homework".to_string(), "Other".to_string()]);
    assert_eq!(weeks.len(), 1);
    assert_eq!(weeks[0].items_by_kind[0].1.len(), 1);
    assert_eq!(weeks[0].items_by_kind[1].1.len(), 1);
    assert_eq!(weeks[0].items_by_kind[1].1[0].kind, "Mystery");
}

#[test]
fn calendar_translates_titles_and_descriptions() {
    let mut cache = TranslationCache::new();
    cache.insert("图论简介".to_string(), "Introduction to graphs".to_string());
    let mut it = item(1, "Lecture", "第二十一讲", Some("2024-01-16"));
    it.description = Some("图论简介".to_string());
    let mut it2 = item(2, "Lecture", "第二十二讲", Some("2024-01-17"));
    it2.description = Some("未缓存".to_string());
    let items = vec![it, it2];
    let (weeks, _, _) = build_calendar(&items, false, &cache, true);
    let lectures = &weeks[0].items_by_kind[0].1;
    assert_eq!(lectures[0].title, "Lecture 21");
    assert_eq!(
        lectures[0].description,
        Some("Introduction to graphs".to_string())
    );
    // an uncached description falls back to the source text
    assert_eq!(lectures[1].description, Some("未缓存".to_string()));
    // with transliteration off, everything passes through untouched
    let (weeks_raw, _, _) = build_calendar(&items, false, &cache, false);
    assert_eq!(weeks_raw[0].items_by_kind[0].1[0].title, "第二十一讲");
    assert_eq!(
        weeks_raw[0].items_by_kind[0].1[0].description,
        Some("图论简介".to_string())
    );
}

#[test]
fn link_policy_first_party_always_kept() {
    let cache = TranslationCache::new();
    let mut it = item(1, "Quiz", "q", Some("2024-01-16"));
    it.link = Some(format!("https://{}/notes/3", FIRST_PARTY_DOMAIN));
    let p = to_public(&it, false, &cache, false);
    assert_eq!(p.link, Some(format!("https://{}/notes/3", FIRST_PARTY_DOMAIN)));
}

#[test]
fn link_policy_lecture_domain_gated() {
    let cache = TranslationCache::new();
    let mut lecture = item(1, "Lecture", "l", Some("2024-01-16"));
    lecture.link = Some(format!("https://{}/v/9", LECTURE_LINK_DOMAIN));
    let shown = to_public(&lecture, true, &cache, false);
    assert_eq!(shown.link, Some(format!("https://{}/v/9", LECTURE_LINK_DOMAIN)));
    let hidden = to_public(&lecture, false, &cache, false);
    assert_eq!(hidden.link, None);
    let mut homework = item(2, "Homework", "h", Some("2024-01-16"));
    homework.link = Some(format!("https://{}/v/9", LECTURE_LINK_DOMAIN));
    let wrong_kind = to_public(&homework, true, &cache, false);
    assert_eq!(wrong_kind.link, None);
}

#[test]
fn link_policy_other_links_suppressed() {
    let cache = TranslationCache::new();
    let mut it = item(1, "Lecture", "l", Some("2024-01-16"));
    it.link = Some("https://example.com/elsewhere".to_string());
    let p = to_public(&it, true, &cache, false);
    assert_eq!(p.link, None);
}
