//! The domain model handed to page renderers: a validated course, its
//! tutorials, and the course-wide tutorial settings.

use std::collections::HashMap;
use vstd::prelude::*;

verus! {

/// Struct used for rendering a single course page.
#[derive(Clone)]
pub struct Page {
    pub base_url: String,
    pub course: Course,
}

/// Struct containing a single course.
#[derive(Debug, Clone)]
pub struct Course {
    pub title: String,
    pub url: String,
    pub tutorials: Vec<Tutorial>,
    pub lang: String,
    /// Sets the course wide tutorial settings (not required).
    pub tutorial_settings: CourseTutorialSettings,
}

/// Course wide defaults for the tutorials (individual tutorials can override
/// some of these).
#[derive(Debug, Clone)]
pub struct CourseTutorialSettings {
    /// This defaults to false.
    pub start_closed: bool,
}

/// Struct used for rendering the home page.
#[derive(Clone)]
pub struct Home {
    pub base_url: String,
    pub course_groups: HashMap<String, HashMap<String, Course>>,
}

/// One tutorial of a course.
#[derive(Debug, Clone)]
pub struct Tutorial {
    pub subtitle: String,
    pub content: String,
    /// Defaults to the course wide settings.
    pub start_closed: Option<bool>,
}

/// The ghost mirror of [`Tutorial`].
pub struct TutorialView {
    pub subtitle: Seq<char>,
    pub content: Seq<char>,
    pub start_closed: Option<bool>,
}

/// The ghost mirror of [`CourseTutorialSettings`].
pub struct CourseTutorialSettingsView {
    pub start_closed: bool,
}

/// The ghost mirror of [`Course`].
pub struct CourseView {
    pub title: Seq<char>,
    pub url: Seq<char>,
    pub tutorials: Seq<TutorialView>,
    pub lang: Seq<char>,
    pub tutorial_settings: CourseTutorialSettingsView,
}

impl View for Tutorial {
    type V = TutorialView;

    open spec fn view(&self) -> TutorialView {
        TutorialView {
            subtitle: self.subtitle@,
            content: self.content@,
            start_closed: self.start_closed,
        }
    }
}

impl View for CourseTutorialSettings {
    type V = CourseTutorialSettingsView;

    open spec fn view(&self) -> CourseTutorialSettingsView {
        CourseTutorialSettingsView { start_closed: self.start_closed }
    }
}

impl View for Course {
    type V = CourseView;

    open spec fn view(&self) -> CourseView {
        CourseView {
            title: self.title@,
            url: self.url@,
            tutorials: self.tutorials@.map_values(|t: Tutorial| t@),
            lang: self.lang@,
            tutorial_settings: self.tutorial_settings@,
        }
    }
}

impl Default for CourseTutorialSettings {
    /// The course-wide default: tutorials start open.
    fn default() -> (r: Self)
        ensures
            r.start_closed == false,
    {
        CourseTutorialSettings { start_closed: false }
    }
}

impl Tutorial {
    /// The effective start-closed state of this tutorial: its own override
    /// when present, else the course-wide default.
    pub fn effective_start_closed(&self, settings: &CourseTutorialSettings) -> (r: bool)
        ensures
            r == match self.start_closed {
                Some(b) => b,
                None => settings.start_closed,
            },
    {
        match self.start_closed {
            Some(b) => b,
            None => settings.start_closed,
        }
    }
}

} // verus!
