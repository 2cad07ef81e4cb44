//! The data model: stored records, their public render-only
//! projections, and the calendar aggregate, with spec-level views of
//! the types the core contracts speak about.

use vstd::prelude::*;

verus! {

/// A term of study.
#[derive(Clone, Debug)]
pub struct Semester {
    pub id: i64,
    pub name: String,
    pub created_at: String,
}

/// A course within a semester.
#[derive(Clone, Debug)]
pub struct Course {
    pub id: i64,
    pub semester_id: i64,
    pub code: String,
    pub title: String,
    pub is_published: bool,
    pub public_slug: Option<String>,
    pub show_lecture_links: bool,
}

/// One log entry of a course: a lecture, homework, quiz or similar,
/// with an optional description, link and date. A date, when present
/// and non-empty, is meant to be an ISO `YYYY-MM-DD` string; one that
/// does not parse is excluded from week bucketing.
#[derive(Clone, Debug, PartialEq)]
pub struct LogItem {
    pub id: i64,
    pub course_id: i64,
    pub kind: String,
    pub title: String,
    pub description: Option<String>,
    pub link: Option<String>,
    pub date: Option<String>,
}

/// A problem category of a course.
#[derive(Clone, Debug)]
pub struct Category {
    pub id: i64,
    pub course_id: i64,
    pub name: String,
}

/// A past exam attached to a course.
#[derive(Clone, Debug)]
pub struct Exam {
    pub id: i64,
    pub course_id: i64,
    pub title: String,
    pub semester: Option<String>,
}

/// A recorded problem: a screenshot with notes.
#[derive(Clone, Debug)]
pub struct Problem {
    pub id: i64,
    pub log_item_id: Option<i64>,
    pub exam_id: Option<i64>,
    pub description: String,
    pub notes: Option<String>,
    pub image_url: Option<String>,
    pub solution_link: Option<String>,
    pub is_incorrect: bool,
}

/// A problem joined with its category names and its source log item.
#[derive(Clone, Debug)]
pub struct ProblemWithCategories {
    pub id: i64,
    pub log_item_id: Option<i64>,
    pub exam_id: Option<i64>,
    pub description: String,
    pub notes: Option<String>,
    pub image_url: Option<String>,
    pub solution_link: Option<String>,
    pub is_incorrect: bool,
    pub category_names: Option<String>,
    pub source_kind: String,
    pub source_title: String,
}

/// A registered instructor account.
#[derive(Clone, Debug)]
pub struct User {
    pub id: i64,
    pub username: String,
    pub password_hash: String,
}

/// The identity of a logged-in instructor.
#[derive(Clone, Debug)]
pub struct AuthUser {
    pub id: i64,
}

/// The render-only public projection of a log item: the title
/// translated or canonicalized, the description translated when a
/// cached translation exists, and the link filtered by the visibility
/// policy. Constructed fresh per request, never persisted.
#[derive(Clone, Debug, PartialEq)]
pub struct PublicLogItem {
    pub id: i64,
    pub kind: String,
    pub title: String,
    pub description: Option<String>,
    pub date: Option<String>,
    pub link: Option<String>,
}

impl PublicLogItem {
    /// A fresh copy with the same value.
    pub fn duplicate(&self) -> (r: PublicLogItem)
        ensures
            r@ == self@,
    {
        PublicLogItem {
            id: self.id,
            kind: self.kind.clone(),
            title: self.title.clone(),
            description: match &self.description {
                Some(d) => Some(d.clone()),
                None => None,
            },
            date: match &self.date {
                Some(d) => Some(d.clone()),
                None => None,
            },
            link: match &self.link {
                Some(l) => Some(l.clone()),
                None => None,
            },
        }
    }
}

/// The render-only public projection of a problem.
#[derive(Clone, Debug)]
pub struct PublicProblem {
    pub id: i64,
    pub image_url: Option<String>,
    pub notes: Option<String>,
    pub category_names: Option<String>,
    pub source_kind: String,
    pub source_title: String,
    pub solution_link: Option<String>,
}

/// One week of the public calendar: a 1-based week number, the
/// Monday and Sunday of its span formatted as short month and day,
/// and one (kind, items) column per active kind, in the canonical
/// kind order, empty columns included.
#[derive(Clone, Debug, PartialEq)]
pub struct CalendarWeek {
    pub week_number: u32,
    pub start_date: String,
    pub end_date: String,
    pub items_by_kind: Vec<(String, Vec<PublicLogItem>)>,
}

/// The spec-level value of a log item.
pub struct LogItemView {
    pub id: i64,
    pub course_id: i64,
    pub kind: Seq<char>,
    pub title: Seq<char>,
    pub description: Option<Seq<char>>,
    pub link: Option<Seq<char>>,
    pub date: Option<Seq<char>>,
}

impl View for LogItem {
    type V = LogItemView;

    open spec fn view(&self) -> LogItemView {
        LogItemView {
            id: self.id,
            course_id: self.course_id,
            kind: self.kind@,
            title: self.title@,
            description: self.description.deep_view(),
            link: self.link.deep_view(),
            date: self.date.deep_view(),
        }
    }
}

impl DeepView for LogItem {
    type V = LogItemView;

    open spec fn deep_view(&self) -> LogItemView {
        self.view()
    }
}

/// The spec-level value of a public log item.
pub struct PublicLogItemView {
    pub id: i64,
    pub kind: Seq<char>,
    pub title: Seq<char>,
    pub description: Option<Seq<char>>,
    pub date: Option<Seq<char>>,
    pub link: Option<Seq<char>>,
}

impl View for PublicLogItem {
    type V = PublicLogItemView;

    open spec fn view(&self) -> PublicLogItemView {
        PublicLogItemView {
            id: self.id,
            kind: self.kind@,
            title: self.title@,
            description: self.description.deep_view(),
            date: self.date.deep_view(),
            link: self.link.deep_view(),
        }
    }
}

impl DeepView for PublicLogItem {
    type V = PublicLogItemView;

    open spec fn deep_view(&self) -> PublicLogItemView {
        self.view()
    }
}

/// The spec-level value of a calendar week.
pub struct CalendarWeekView {
    pub week_number: u32,
    pub start_date: Seq<char>,
    pub end_date: Seq<char>,
    pub items_by_kind: Seq<(Seq<char>, Seq<PublicLogItemView>)>,
}

impl View for CalendarWeek {
    type V = CalendarWeekView;

    open spec fn view(&self) -> CalendarWeekView {
        CalendarWeekView {
            week_number: self.week_number,
            start_date: self.start_date@,
            end_date: self.end_date@,
            items_by_kind: self.items_by_kind.deep_view(),
        }
    }
}

impl DeepView for CalendarWeek {
    type V = CalendarWeekView;

    open spec fn deep_view(&self) -> CalendarWeekView {
        self.view()
    }
}

} // verus!
