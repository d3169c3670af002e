//! The entries of a Play Store listing: the ones read from a page, and the one
//! a user wants to see in the mockup.
use vstd::prelude::*;

verus! {

/// A Play Store list item as read from a page.
///  - `feature`: feature image url
///  - `icon`: icon image url
///  - `title`: app name
///  - `developer`: developer name
///  - `rating`: star rating (e.g. 4.7)
///  - `link`: link to the app's Play Store page
///  - `html`: the item's html
#[derive(Debug)]
pub struct AppEntry {
    pub feature: String,
    pub icon: String,
    pub title: String,
    pub developer: String,
    pub rating: String,
    pub link: String,
    pub html: String,
}

/// The texts of an [`AppEntry`].
pub struct AppEntryView {
    pub feature: Seq<char>,
    pub icon: Seq<char>,
    pub title: Seq<char>,
    pub developer: Seq<char>,
    pub rating: Seq<char>,
    pub link: Seq<char>,
    pub html: Seq<char>,
}

impl View for AppEntry {
    type V = AppEntryView;

    open spec fn view(&self) -> AppEntryView {
        AppEntryView {
            feature: self.feature@,
            icon: self.icon@,
            title: self.title@,
            developer: self.developer@,
            rating: self.rating@,
            link: self.link@,
            html: self.html@,
        }
    }
}

impl AppEntry {
    /// An entry whose texts are all empty.
    pub fn new() -> (e: AppEntry)
        ensures
            e@.feature == Seq::<char>::empty(),
            e@.icon == Seq::<char>::empty(),
            e@.title == Seq::<char>::empty(),
            e@.developer == Seq::<char>::empty(),
            e@.rating == Seq::<char>::empty(),
            e@.link == Seq::<char>::empty(),
            e@.html == Seq::<char>::empty(),
    {
        AppEntry {
            feature: String::new(),
            icon: String::new(),
            title: String::new(),
            developer: String::new(),
            rating: String::new(),
            link: String::new(),
            html: String::new(),
        }
    }
}

/// The app a user wants to see in a mockup.
///  - `feature_link`: feature image url
///  - `icon_link`: icon image url
///  - `title`: app name
///  - `developer`: developer name
///  - `rating`: star rating (e.g. 4.7)
///  - `app_link`: link to the app's Play Store page
#[derive(Debug)]
pub struct UserAppEntry {
    pub feature_link: String,
    pub icon_link: String,
    pub title: String,
    pub developer: String,
    pub rating: String,
    pub app_link: String,
}

/// The texts of a [`UserAppEntry`].
pub struct UserAppEntryView {
    pub feature_link: Seq<char>,
    pub icon_link: Seq<char>,
    pub title: Seq<char>,
    pub developer: Seq<char>,
    pub rating: Seq<char>,
    pub app_link: Seq<char>,
}

impl View for UserAppEntry {
    type V = UserAppEntryView;

    open spec fn view(&self) -> UserAppEntryView {
        UserAppEntryView {
            feature_link: self.feature_link@,
            icon_link: self.icon_link@,
            title: self.title@,
            developer: self.developer@,
            rating: self.rating@,
            app_link: self.app_link@,
        }
    }
}

impl UserAppEntry {
    /// The entry with the given texts.
    pub fn new(
        feature_link: &str,
        icon_link: &str,
        title: &str,
        developer: &str,
        rating: &str,
        app_link: &str,
    ) -> (e: UserAppEntry)
        ensures
            e@.feature_link == feature_link@,
            e@.icon_link == icon_link@,
            e@.title == title@,
            e@.developer == developer@,
            e@.rating == rating@,
            e@.app_link == app_link@,
    {
        UserAppEntry {
            feature_link: feature_link.to_owned(),
            icon_link: icon_link.to_owned(),
            title: title.to_owned(),
            developer: developer.to_owned(),
            rating: rating.to_owned(),
            app_link: app_link.to_owned(),
        }
    }
}

impl Clone for UserAppEntry {
    fn clone(&self) -> (e: Self)
        ensures
            e == *self,
    {
        UserAppEntry {
            feature_link: self.feature_link.clone(),
            icon_link: self.icon_link.clone(),
            title: self.title.clone(),
            developer: self.developer.clone(),
            rating: self.rating.clone(),
            app_link: self.app_link.clone(),
        }
    }
}

} // verus!
