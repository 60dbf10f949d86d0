//! The battery sampler: a pass-through of the capacity file's text, trimmed
//! and given a unit suffix. A failed reading blanks the display.

use vstd::prelude::*;

use crate::text;

verus! {

/// The battery sampler's state: the last successfully read capacity text.
#[derive(Debug, PartialEq, Clone)]
pub struct Battery {
    /// The trimmed capacity text with its unit suffix, if the last reading
    /// succeeded.
    pub val: Option<String>,
}

impl Battery {
    /// A sampler with nothing to report.
    pub fn init() -> (b: Battery)
        ensures
            b.val is None,
    {
        Battery { val: None }
    }

    /// How one reading transforms the sampler: `content` is the capacity
    /// file's text, or nothing for an unreadable source, which blanks the
    /// display; a reading is stored trimmed, with a percent sign appended.
    pub open spec fn step_rel(pre: Battery, content: Option<Seq<char>>, post: Battery) -> bool {
        match content {
            Some(s) => post.val matches Some(t) && t@ == text::trim_seq(s) + "%"@,
            None => post.val is None,
        }
    }

    /// Digests one reading of the capacity file, as `step_rel` says.
    pub fn update(&mut self, content: Option<&str>)
        ensures
            Battery::step_rel(
                *old(self),
                match content {
                    Some(s) => Some(s@),
                    None => None,
                },
                *final(self),
            ),
    {
        match content {
            Some(s) => {
                let mut t = text::str_trim(s);
                t.append("%");
                self.val = Some(t);
            },
            None => {
                self.val = None;
            },
        }
    }

    /// The stored capacity text, or nothing when the last reading failed.
    pub fn output(&self) -> (r: Option<String>)
        ensures
            match self.val {
                Some(v) => r matches Some(t) && t@ == v@,
                None => r is None,
            },
    {
        match &self.val {
            Some(v) => Some(v.clone()),
            None => None,
        }
    }
}

} // verus!
