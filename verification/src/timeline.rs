use vstd::prelude::*;

verus! {

/// A complete timeline snapshot: the groups and items the frontend shows.
#[derive(Debug, Clone, PartialEq)]
pub struct TimelineData {
    pub groups: Vec<TimelineGroup>,
    pub items: Vec<TimelineItem>,
}

/// One timeline lane.
#[derive(Debug, Clone, PartialEq)]
pub struct TimelineGroup {
    pub id: String,
    pub content: String,
}

/// One timeline entry; optional fields are absent rather than empty.
#[derive(Debug, Clone, PartialEq)]
pub struct TimelineItem {
    pub id: String,
    pub group: Option<String>,
    pub content: String,
    pub start: String,
    pub end: Option<String>,
    pub tags: Option<Vec<String>>,
    pub class_name: Option<String>,
}

} // verus!
