//! A keyboard-driven choice menu: the selection moves up and down, enter
//! picks the highlighted entry, and escape cancels. The decision logic is
//! here; feeding real input events in and drawing the lines out is the
//! surrounding program's business.

use vstd::prelude::*;

use vstd::string::StringExecFns;

verus! {

/// The keys the menu reacts to.
#[derive(Clone, Copy, Debug, PartialEq, Eq, Structural)]
pub enum MenuKey {
    Escape,
    Enter,
    Up,
    Down,
}

/// What one key press did to the menu.
#[derive(Clone, Debug, PartialEq, Eq)]
pub enum MenuResult {
    Canceled,
    StillActive,
    Done(String),
}

/// A menu over a fixed, nonempty list of choices, with one highlighted.
#[derive(Clone, Debug)]
pub struct Menu {
    pub choices: Vec<String>,
    pub current_idx: usize,
}

impl Menu {
    /// The highlighted index always names a choice.
    pub open spec fn wf(self) -> bool {
        &&& self.choices@.len() >= 1
        &&& self.current_idx < self.choices@.len()
    }

    /// A menu over the given choices, with the first highlighted.
    pub fn new(choices: Vec<String>) -> (m: Menu)
        requires
            choices@.len() >= 1,
        ensures
            m.choices == choices,
            m.current_idx == 0,
            m.wf(),
    {
        Menu { choices, current_idx: 0 }
    }

    /// React to one key press: escape cancels, enter picks the highlighted
    /// choice, up and down move the highlight and stop at the ends.
    pub fn event(&mut self, key: MenuKey) -> (r: MenuResult)
        requires
            old(self).wf(),
        ensures
            final(self).wf(),
            final(self).choices == old(self).choices,
            key == MenuKey::Escape ==> (*final(self) == *old(self) && r == MenuResult::Canceled),
            key == MenuKey::Enter ==> (*final(self) == *old(self) && r == MenuResult::Done(
                old(self).choices@[old(self).current_idx as int],
            )),
            key == MenuKey::Up ==> ({
                &&& final(self).current_idx == if old(self).current_idx > 0 {
                    old(self).current_idx - 1
                } else {
                    0int
                }
                &&& r == MenuResult::StillActive
            }),
            key == MenuKey::Down ==> ({
                &&& final(self).current_idx == if old(self).current_idx + 1 < old(
                    self,
                ).choices@.len() {
                    old(self).current_idx + 1
                } else {
                    old(self).current_idx as int
                }
                &&& r == MenuResult::StillActive
            }),
    {
        match key {
            MenuKey::Escape => MenuResult::Canceled,
            MenuKey::Enter => MenuResult::Done(self.choices[self.current_idx].clone()),
            MenuKey::Up => {
                if self.current_idx > 0 {
                    self.current_idx = self.current_idx - 1;
                }
                MenuResult::StillActive
            },
            MenuKey::Down => {
                if self.current_idx < self.choices.len() - 1 {
                    self.current_idx = self.current_idx + 1;
                }
                MenuResult::StillActive
            },
        }
    }

    /// The menu's lines as shown: every choice, with the highlighted one
    /// prefixed by an arrow.
    pub fn lines_to_display(&self) -> (r: Vec<String>)
        requires
            self.wf(),
        ensures
            r@.len() == self.choices@.len(),
            forall|i: int|
                0 <= i < r@.len() && i != self.current_idx ==> r@[i] == self.choices@[i],
            r@[self.current_idx as int]@ == "---> "@ + self.choices@[self.current_idx as int]@,
    {
        let mut out: Vec<String> = Vec::new();
        let n: usize = self.choices.len();
        let mut i: usize = 0;
        while i < n
            invariant
                self.wf(),
                n == self.choices@.len(),
                i <= n,
                out@.len() == i,
                forall|j: int| 0 <= j < i && j != self.current_idx ==> out@[j] == self.choices@[j],
                self.current_idx < i ==> out@[self.current_idx as int]@ == "---> "@
                    + self.choices@[self.current_idx as int]@,
            decreases n - i,
        {
            if i == self.current_idx {
                let mut marked: String = String::from_str("---> ");
                marked.append(self.choices[i].as_str());
                out.push(marked);
            } else {
                out.push(self.choices[i].clone());
            }
            i += 1;
        }
        out
    }
}

} // verus!
