use vstd::prelude::*;

use crate::model::{AssemblyId, FieldId, MethodId, PropertyId, TypeId};
use crate::text::{chars_of, parse_u64, spec_parse_u64, trim, trim_chars};

verus! {

/// A native location in one of the three address spaces.
#[derive(Clone, Copy, Debug, PartialEq, Eq, Hash, Structural)]
pub enum AddressTarget {
    Rva(u64),
    Va(u64),
    FileOffset(u64),
}

/// Something the explorer can show.
#[derive(Clone, Copy, Debug, PartialEq, Eq, Hash, Structural)]
pub enum NavigationTarget {
    ProjectOverview,
    Assembly(AssemblyId),
    Type(TypeId),
    Field(FieldId),
    Property(PropertyId),
    Method(MethodId),
    Address(AddressTarget),
}

/// One open explorer tab.
#[derive(Debug, PartialEq, Eq)]
pub struct ExplorerTab {
    pub id: u64,
    pub target: NavigationTarget,
    pub title: String,
}

/// Open tabs and the active one.
pub struct TabState {
    pub tabs: Vec<ExplorerTab>,
    pub active: Option<usize>,
    /// Identifier given to the most recently opened tab.
    pub next_id: u64,
}

/// Position of the first tab showing `target`, if any.
pub open spec fn first_tab_with(tabs: Seq<ExplorerTab>, target: NavigationTarget) -> Option<int> {
    if exists|i: int| 0 <= i < tabs.len() && tabs[i].target == target {
        Some(
            choose|i: int|
                0 <= i < tabs.len() && tabs[i].target == target && forall|j: int|
                    0 <= j < i ==> tabs[j].target != target,
        )
    } else {
        None
    }
}

/// The active tab, if any, is one of the open tabs.
pub open spec fn active_in_range(s: TabState) -> bool {
    s.active matches Some(i) ==> i < s.tabs@.len()
}

/// Every tab id is at most the last id handed out, and no two tabs share an id.
pub open spec fn ids_fresh(s: TabState) -> bool {
    &&& forall|i: int| 0 <= i < s.tabs@.len() ==> (#[trigger] s.tabs@[i]).id <= s.next_id
    &&& forall|i: int, j: int|
        0 <= i < j < s.tabs@.len() ==> (#[trigger] s.tabs@[i]).id != (#[trigger] s.tabs@[j]).id
}

/// Opening `target` with `title` turned `before` into `after`: the first tab already showing
/// `target` becomes active, with nothing else changed; otherwise a tab with the next id is
/// appended and becomes active.
pub open spec fn opened(before: TabState, after: TabState, target: NavigationTarget, title: Seq<char>) -> bool {
    &&& (first_tab_with(before.tabs@, target) matches Some(i) ==> after.tabs@ == before.tabs@
        && after.active == Some(i as usize) && after.next_id == before.next_id)
    &&& (first_tab_with(before.tabs@, target) is None ==> {
        &&& after.next_id == before.next_id + 1
        &&& after.tabs@.len() == before.tabs@.len() + 1
        &&& after.tabs@.drop_last() == before.tabs@
        &&& after.tabs@.last().id == after.next_id
        &&& after.tabs@.last().target == target
        &&& after.tabs@.last().title@ == title
        &&& after.active == Some(before.tabs@.len() as usize)
    })
    &&& (after.active matches Some(i) && i < after.tabs@.len() && after.tabs@[i as int].target
        == target)
}

/// What the explorer shows once the active tab is closed.
#[derive(Clone, Copy, Debug, PartialEq, Eq, Structural)]
pub enum TabClosed {
    /// No tab was active, so nothing was closed.
    NothingActive,
    /// The tab that is active now shows this target.
    Show(NavigationTarget),
    /// No open tab is active any more; the project overview is shown.
    Overview,
}

impl Default for TabState {
    fn default() -> (s: Self)
        ensures
            s.tabs@.len() == 0,
            s.active is None,
            s.next_id == 0,
    {
        TabState { tabs: Vec::new(), active: None, next_id: 0 }
    }
}

impl TabState {
    /// Focuses the tab that already shows `target`, or opens a new one for it.
    pub fn open(&mut self, target: NavigationTarget, title: String)
        requires
            first_tab_with(old(self).tabs@, target) is None ==> old(self).next_id < u64::MAX,
        ensures
            opened(*old(self), *final(self), target, title@),
            ids_fresh(*old(self)) ==> ids_fresh(*final(self)),
    {
        let mut index: usize = 0;
        while index < self.tabs.len()
            invariant
                self.tabs@ == old(self).tabs@,
                self.active == old(self).active,
                self.next_id == old(self).next_id,
                index <= self.tabs@.len(),
                forall|j: int| 0 <= j < index ==> self.tabs@[j].target != target,
            decreases self.tabs@.len() - index,
        {
            if self.tabs[index].target == target {
                proof {
                    let w = choose|i: int|
                        0 <= i < self.tabs@.len() && self.tabs@[i].target == target && forall|j: int|
                            0 <= j < i ==> self.tabs@[j].target != target;
                    assert(0 <= index < self.tabs@.len() && self.tabs@[index as int].target == target
                        && forall|j: int| 0 <= j < index ==> self.tabs@[j].target != target);
                    if w < index {
                    } else if w > index {
                        assert(self.tabs@[index as int].target != target);
                    }
                }
                self.active = Some(index);
                return;
            }
            index = index + 1;
        }
        self.next_id = self.next_id + 1;
        self.tabs.push(ExplorerTab { id: self.next_id, target, title });
        self.active = Some(self.tabs.len() - 1);
        assert(self.tabs@.drop_last() =~= old(self).tabs@);
    }

    /// Points the active tab at `target`, or opens a tab when none is active.
    pub fn replace_active(&mut self, target: NavigationTarget, title: String)
        requires
            !(old(self).active matches Some(i) && i < old(self).tabs@.len()) && first_tab_with(
                old(self).tabs@,
                target,
            ) is None ==> old(self).next_id < u64::MAX,
        ensures
            old(self).active matches Some(i) ==> i < old(self).tabs@.len() ==> {
                &&& final(self).active == old(self).active
                &&& final(self).next_id == old(self).next_id
                &&& final(self).tabs@ == old(self).tabs@.update(
                    i as int,
                    ExplorerTab { id: old(self).tabs@[i as int].id, target, title },
                )
            },
            !(old(self).active matches Some(i) && i < old(self).tabs@.len()) ==> opened(
                *old(self),
                *final(self),
                target,
                title@,
            ),
            final(self).active matches Some(i) && i < final(self).tabs@.len()
                && final(self).tabs@[i as int].target == target,
            ids_fresh(*old(self)) ==> ids_fresh(*final(self)),
    {
        match self.active {
            Some(index) => {
                if index < self.tabs.len() {
                    let id = self.tabs[index].id;
                    self.tabs.set(index, ExplorerTab { id, target, title });
                    return;
                }
            },
            None => {},
        }
        self.open(target, title);
    }

    /// Closes tab `index`; the tab that takes its place, or the new last tab, becomes active.
    pub fn close(&mut self, index: usize)
        ensures
            active_in_range(*old(self)) ==> active_in_range(*final(self)),
            final(self).next_id == old(self).next_id,
            ids_fresh(*old(self)) ==> ids_fresh(*final(self)),
            index >= old(self).tabs@.len() ==> final(self).tabs@ == old(self).tabs@
                && final(self).active == old(self).active,
            index < old(self).tabs@.len() ==> {
                &&& final(self).tabs@ == old(self).tabs@.remove(index as int)
                &&& final(self).active == if final(self).tabs@.len() == 0 {
                    None::<usize>
                } else if index < final(self).tabs@.len() {
                    Some(index)
                } else {
                    Some((final(self).tabs@.len() - 1) as usize)
                }
            },
    {
        if index >= self.tabs.len() {
            return;
        }
        self.tabs.remove(index);
        self.active = if self.tabs.len() == 0 {
            None
        } else if index < self.tabs.len() {
            Some(index)
        } else {
            Some(self.tabs.len() - 1)
        };
    }

    /// Closes the active tab, as the close-tab shortcut does, and says what to show next:
    /// the target of the tab that becomes active, or the overview when none does.
    pub fn close_active(&mut self) -> (r: TabClosed)
        ensures
            final(self).next_id == old(self).next_id,
            ids_fresh(*old(self)) ==> ids_fresh(*final(self)),
            old(self).active is None ==> {
                &&& final(self).tabs@ == old(self).tabs@
                &&& final(self).active is None
                &&& r == TabClosed::NothingActive
            },
            old(self).active matches Some(i) ==> {
                &&& i >= old(self).tabs@.len() ==> final(self).tabs@ == old(self).tabs@
                    && final(self).active == old(self).active
                &&& i < old(self).tabs@.len() ==> final(self).tabs@ == old(self).tabs@.remove(
                    i as int,
                ) && final(self).active == if final(self).tabs@.len() == 0 {
                    None::<usize>
                } else if i < final(self).tabs@.len() {
                    Some(i)
                } else {
                    Some((final(self).tabs@.len() - 1) as usize)
                }
                &&& r == match final(self).active {
                    Some(j) => if j < final(self).tabs@.len() {
                        TabClosed::Show(final(self).tabs@[j as int].target)
                    } else {
                        TabClosed::Overview
                    },
                    None => TabClosed::Overview,
                }
            },
    {
        match self.active {
            None => TabClosed::NothingActive,
            Some(index) => {
                self.close(index);
                match self.active {
                    Some(now) => {
                        if now < self.tabs.len() {
                            TabClosed::Show(self.tabs[now].target)
                        } else {
                            TabClosed::Overview
                        }
                    },
                    None => TabClosed::Overview,
                }
            },
        }
    }
}

/// `s` without a leading `0x` or `0X`.
pub open spec fn strip_hex_prefix(s: Seq<char>) -> Seq<char> {
    if s.len() >= 2 && s[0] == '0' && (s[1] == 'x' || s[1] == 'X') {
        s.skip(2)
    } else {
        s
    }
}

/// The address a non-empty trimmed input denotes: hexadecimal (with or without `0x`)
/// first, decimal otherwise.
pub open spec fn spec_address_value(t: Seq<char>) -> Option<u64> {
    match spec_parse_u64(strip_hex_prefix(t), 16) {
        Some(v) => Some(v),
        None => spec_parse_u64(t, 10),
    }
}

/// Parses an address typed by the user.
pub fn parse_address(value: &str) -> (r: Result<u64, &'static str>)
    ensures
        trim(value@).len() == 0 ==> r == Err::<u64, &'static str>("Address is required."),
        trim(value@).len() > 0 ==> match spec_address_value(trim(value@)) {
            Some(v) => r == Ok::<u64, &'static str>(v),
            None => r == Err::<u64, &'static str>("Invalid hexadecimal address."),
        },
{
    let chars = chars_of(value);
    let t = trim_chars(chars.as_slice());
    if t.len() == 0 {
        return Err("Address is required.");
    }
    let hex: Vec<char> = if t.len() >= 2 && t[0] == '0' && (t[1] == 'x' || t[1] == 'X') {
        let mut h: Vec<char> = Vec::new();
        let mut i: usize = 2;
        while i < t.len()
            invariant
                2 <= i <= t@.len(),
                h@ == t@.subrange(2, i as int),
            decreases t@.len() - i,
        {
            h.push(t[i]);
            i = i + 1;
            assert(h@ =~= t@.subrange(2, i as int));
        }
        assert(h@ =~= t@.skip(2));
        h
    } else {
        t.clone()
    };
    match parse_u64(hex.as_slice(), 16) {
        Some(v) => Ok(v),
        None => match parse_u64(t.as_slice(), 10) {
            Some(v) => Ok(v),
            None => Err("Invalid hexadecimal address."),
        },
    }
}

} // verus!
