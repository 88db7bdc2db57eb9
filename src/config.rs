use vstd::prelude::*;

use crate::history::string_views;

verus! {

/// When a check first runs and how often it repeats, in seconds.
#[derive(Debug, Clone, Copy, PartialEq, Eq, Structural)]
pub struct Schedule {
    pub initial_delay: u64,
    /// Seconds between the end of one execution and the start of the next;
    /// zero runs the check back to back.
    pub interval: u64,
}

/// A single scheduled HTTP check.
#[derive(Debug, Clone, PartialEq, Eq)]
pub struct Probe {
    pub name: String,
    pub url: String,
    pub http_method: String,
    /// Request body, if any.
    pub body: Option<String>,
    /// Request headers, as name and value pairs.
    pub headers: Vec<(String, String)>,
    pub schedule: Schedule,
    /// Suppresses capture of the response body in results.
    pub sensitive: bool,
    /// Labels attached to the probe, as name and value pairs.
    pub tags: Vec<(String, String)>,
}

/// One request of a story.
#[derive(Debug, Clone, PartialEq, Eq)]
pub struct StoryStep {
    pub name: String,
    pub url: String,
    pub http_method: String,
    pub body: Option<String>,
    /// Request headers, as name and value pairs.
    pub headers: Vec<(String, String)>,
}

/// A scheduled, ordered sequence of requests.
#[derive(Debug, Clone, PartialEq, Eq)]
pub struct Story {
    pub name: String,
    pub steps: Vec<StoryStep>,
    pub schedule: Schedule,
}

/// The probe and story definitions that govern the scheduler.
#[derive(Debug, Clone, PartialEq, Eq)]
pub struct Config {
    pub probes: Vec<Probe>,
    pub stories: Vec<Story>,
}

/// Names of the probes, in order.
pub open spec fn probe_names(probes: Seq<Probe>) -> Seq<Seq<char>> {
    probes.map_values(|p: Probe| p.name@)
}

/// Names of the stories, in order.
pub open spec fn story_names(stories: Seq<Story>) -> Seq<Seq<char>> {
    stories.map_values(|s: Story| s.name@)
}


impl Config {
    /// The names of the probes, in order.
    pub fn probe_name_list(&self) -> (r: Vec<String>)
        ensures
            string_views(r@) == probe_names(self.probes@),
    {
        let mut r: Vec<String> = Vec::new();
        let mut i: usize = 0;
        while i < self.probes.len()
            invariant
                i <= self.probes@.len(),
                r@.len() == i,
                forall|a: int| 0 <= a < i ==> #[trigger] r@[a]@ == self.probes@[a].name@,
            decreases self.probes@.len() - i,
        {
            r.push(self.probes[i].name.clone());
            i = i + 1;
        }
        assert(string_views(r@) =~= probe_names(self.probes@));
        r
    }

    /// The names of the stories, in order.
    pub fn story_name_list(&self) -> (r: Vec<String>)
        ensures
            string_views(r@) == story_names(self.stories@),
    {
        let mut r: Vec<String> = Vec::new();
        let mut i: usize = 0;
        while i < self.stories.len()
            invariant
                i <= self.stories@.len(),
                r@.len() == i,
                forall|a: int| 0 <= a < i ==> #[trigger] r@[a]@ == self.stories@[a].name@,
            decreases self.stories@.len() - i,
        {
            r.push(self.stories[i].name.clone());
            i = i + 1;
        }
        assert(string_views(r@) =~= story_names(self.stories@));
        r
    }
}

} // verus!
