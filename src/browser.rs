//! The state of the interactive list browser: the items on show, which one
//! is selected, whether its details are open, and whether the user asked to
//! quit. Moving the selection clamps at both ends and never wraps.
use vstd::prelude::*;

verus! {

/// One entry of the list.
#[derive(Debug)]
pub struct Container {
    /// What the list shows for the entry.
    pub url: String,
    /// The entry's details, once looked up.
    pub info: Option<String>,
}

/// A key press, as far as the browser tells keys apart.
#[derive(Clone, Copy, Debug, PartialEq, Eq)]
pub enum Key {
    Char(char),
    Esc,
    Up,
    Down,
    Enter,
    Other,
}

/// What the user asks the browser to do.
#[derive(Clone, Copy, Debug, PartialEq, Eq)]
pub enum Command {
    Quit,
    Next,
    Previous,
    Show,
}

/// The command that a key stands for: `q` or Esc quit, `j` or Down move
/// down, `k` or Up move up, Enter shows the selected entry.
pub open spec fn key_command(key: Key) -> Option<Command> {
    match key {
        Key::Char('q') | Key::Esc => Some(Command::Quit),
        Key::Char('j') | Key::Down => Some(Command::Next),
        Key::Char('k') | Key::Up => Some(Command::Previous),
        Key::Enter => Some(Command::Show),
        _ => None,
    }
}

pub fn command_for_key(key: Key) -> (r: Option<Command>)
    ensures
        r == key_command(key),
{
    match key {
        Key::Char('q') | Key::Esc => Some(Command::Quit),
        Key::Char('j') | Key::Down => Some(Command::Next),
        Key::Char('k') | Key::Up => Some(Command::Previous),
        Key::Enter => Some(Command::Show),
        _ => None,
    }
}

/// The selection after a move down in a list of `len` entries: one further,
/// but the last entry stays selected; with nothing selected, the first.
pub open spec fn next_index(selected: Option<nat>, len: nat) -> nat {
    match selected {
        Some(i) => if i + 1 < len {
            i + 1
        } else {
            i
        },
        None => 0,
    }
}

/// The selection after a move up: one back, but the first entry stays
/// selected; with nothing selected, the first.
pub open spec fn previous_index(selected: Option<nat>) -> nat {
    match selected {
        Some(i) => if i == 0 {
            0
        } else {
            (i - 1) as nat
        },
        None => 0,
    }
}

/// The browser's state, seen as values.
pub ghost struct BrowserView {
    pub items: Seq<Container>,
    pub selected: Option<nat>,
    pub item_enter: bool,
    pub should_quit: bool,
}

impl BrowserView {
    /// A selection points at an entry, or at the first place of an empty list.
    pub open spec fn wf(self) -> bool {
        match self.selected {
            Some(i) => i == 0 || i < self.items.len(),
            None => true,
        }
    }

    /// The entry whose details are to be shown, if the selection points at one.
    pub open spec fn shown(self) -> Option<nat> {
        match self.selected {
            Some(i) => if i < self.items.len() {
                Some(i)
            } else {
                None
            },
            None => None,
        }
    }
}

/// The list browser.
pub struct Browser {
    items: Vec<Container>,
    selected: Option<usize>,
    item_enter: bool,
    should_quit: bool,
}

impl View for Browser {
    type V = BrowserView;

    closed spec fn view(&self) -> BrowserView {
        BrowserView {
            items: self.items@,
            selected: match self.selected {
                Some(i) => Some(i as nat),
                None => None,
            },
            item_enter: self.item_enter,
            should_quit: self.should_quit,
        }
    }
}

impl Browser {
    /// A browser over entries that show `urls`, in that order, with the first
    /// entry selected and no details open.
    pub fn new(urls: Vec<String>) -> (r: Self)
        ensures
            r@.wf(),
            r@.items.len() == urls@.len(),
            forall|i: int|
                0 <= i < urls@.len() ==> (#[trigger] r@.items[i]).url == urls@[i]
                    && r@.items[i].info is None,
            r@.selected == Some(0nat),
            !r@.item_enter,
            !r@.should_quit,
    {
        let ghost all = urls@;
        let mut urls = urls;
        let mut items: Vec<Container> = Vec::new();
        let n = urls.len();
        let mut k: usize = 0;
        while k < n
            invariant
                n == all.len(),
                k <= n,
                urls@ == all.skip(k as int),
                items@.len() == k,
                forall|i: int|
                    0 <= i < k ==> (#[trigger] items@[i]).url == all[i] && items@[i].info is None,
            decreases n - k,
        {
            let url = urls.remove(0);
            assert(url == all[k as int]);
            items.push(Container { url, info: None });
            assert(urls@ =~= all.skip(k + 1));
            k = k + 1;
        }
        Browser { items, selected: Some(0), item_enter: false, should_quit: false }
    }

    pub fn items(&self) -> (r: &Vec<Container>)
        ensures
            r@ == self@.items,
    {
        &self.items
    }

    pub fn selected(&self) -> (r: Option<usize>)
        ensures
            match r {
                Some(i) => self@.selected == Some(i as nat),
                None => self@.selected is None,
            },
    {
        self.selected
    }

    /// Whether the details of the selected entry are open.
    pub fn item_enter(&self) -> (r: bool)
        ensures
            r == self@.item_enter,
    {
        self.item_enter
    }

    pub fn should_quit(&self) -> (r: bool)
        ensures
            r == self@.should_quit,
    {
        self.should_quit
    }

    /// Moves the selection one entry down, staying at the last entry.
    pub fn select_next(&mut self)
        requires
            old(self)@.wf(),
        ensures
            final(self)@ == (BrowserView {
                selected: Some(next_index(old(self)@.selected, old(self)@.items.len())),
                ..old(self)@
            }),
            final(self)@.wf(),
    {
        let i = match self.selected {
            Some(i) => if i < self.items.len() && i + 1 < self.items.len() {
                i + 1
            } else {
                i
            },
            None => 0,
        };
        self.selected = Some(i);
    }

    /// Moves the selection one entry up, staying at the first entry.
    pub fn select_previous(&mut self)
        requires
            old(self)@.wf(),
        ensures
            final(self)@ == (BrowserView {
                selected: Some(previous_index(old(self)@.selected)),
                ..old(self)@
            }),
            final(self)@.wf(),
    {
        let i = match self.selected {
            Some(i) => if i == 0 {
                0
            } else {
                i - 1
            },
            None => 0,
        };
        self.selected = Some(i);
    }

    /// Opens the details of the selected entry and hands back its index, for
    /// the caller to look the details up; with no entry selected, closes them.
    pub fn display_info(&mut self) -> (r: Option<usize>)
        requires
            old(self)@.wf(),
        ensures
            final(self)@.wf(),
            match old(self)@.shown() {
                Some(i) => r == Some(i as usize) && final(self)@ == (BrowserView {
                    item_enter: true,
                    ..old(self)@
                }),
                None => r is None && final(self)@ == (BrowserView {
                    item_enter: false,
                    ..old(self)@
                }),
            },
    {
        match self.selected {
            Some(i) => if i < self.items.len() {
                self.item_enter = true;
                Some(i)
            } else {
                self.item_enter = false;
                None
            },
            None => {
                self.item_enter = false;
                None
            },
        }
    }

    /// Records the details of entry `index`; an index past the list changes
    /// nothing.
    pub fn set_info(&mut self, index: usize, info: String)
        requires
            old(self)@.wf(),
        ensures
            final(self)@.wf(),
            index < old(self)@.items.len() ==> final(self)@ == (BrowserView {
                items: old(self)@.items.update(
                    index as int,
                    Container { url: old(self)@.items[index as int].url, info: Some(info) },
                ),
                ..old(self)@
            }),
            index >= old(self)@.items.len() ==> final(self)@ == old(self)@,
    {
        if index < self.items.len() {
            let ghost before = self.items@;
            let mut entry = self.items.remove(index);
            entry.info = Some(info);
            self.items.insert(index, entry);
            assert(self.items@ =~= before.update(
                index as int,
                Container { url: before[index as int].url, info: Some(info) },
            ));
        }
    }

    /// Acts on a key press: quits, moves the selection or opens the details
    /// of the selected entry. Hands back the index of the entry whose details
    /// are to be looked up, if the key opened one.
    pub fn handle_key(&mut self, key: Key) -> (r: Option<usize>)
        requires
            old(self)@.wf(),
        ensures
            final(self)@.wf(),
            match key_command(key) {
                Some(Command::Quit) => r is None && final(self)@ == (BrowserView {
                    should_quit: true,
                    ..old(self)@
                }),
                Some(Command::Next) => r is None && final(self)@ == (BrowserView {
                    selected: Some(next_index(old(self)@.selected, old(self)@.items.len())),
                    ..old(self)@
                }),
                Some(Command::Previous) => r is None && final(self)@ == (BrowserView {
                    selected: Some(previous_index(old(self)@.selected)),
                    ..old(self)@
                }),
                Some(Command::Show) => r == match old(self)@.shown() {
                    Some(i) => Some(i as usize),
                    None => None,
                } && final(self)@ == (BrowserView {
                    item_enter: old(self)@.shown() is Some,
                    ..old(self)@
                }),
                None => r is None && final(self)@ == old(self)@,
            },
    {
        match command_for_key(key) {
            Some(Command::Quit) => {
                self.should_quit = true;
                None
            },
            Some(Command::Next) => {
                self.select_next();
                None
            },
            Some(Command::Previous) => {
                self.select_previous();
                None
            },
            Some(Command::Show) => self.display_info(),
            None => None,
        }
    }
}

} // verus!

verus! {

/// The selection never leaves a non-empty list: a move down from the last
/// entry stays there, a move up from the first stays there, and every move
/// from an entry lands on an entry.
pub proof fn lemma_selection_clamped(i: nat, len: nat)
    requires
        i < len,
    ensures
        next_index(Some(i), len) < len,
        previous_index(Some(i)) < len,
        i == len - 1 ==> next_index(Some(i), len) == i,
        i == 0 ==> previous_index(Some(i)) == 0,
{
}

} // verus!
