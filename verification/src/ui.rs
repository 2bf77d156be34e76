//! UI bookkeeping: reactive state cells with text widgets bound to them,
//! the system icon a symbol name selects, and the port of the input
//! fuzzer's server.

use vstd::prelude::*;
use vstd::string::*;
use std::collections::HashMap;
use crate::llvm_function::push_str;
use crate::text::chars_eq;

verus! {

/// NaN-box of `undefined`.
pub const UNDEFINED_BITS: u64 = 0x7FFC_0000_0000_0001;

/// A text widget shown as `<prefix><value><suffix>` of a state cell.
pub struct TextBinding {
    pub text_handle: i64,
    pub prefix: String,
    pub suffix: String,
}

/// State cells (values as the bits of their doubles), addressed by 1-based
/// handles, and the text bindings of each cell.
pub struct StateStore {
    pub states: Vec<u64>,
    pub bindings: HashMap<i64, Vec<TextBinding>>,
}

/// The cell index of a handle (handles are 1-based; others wrap out of
/// range).
pub open spec fn cell_index(handle: i64) -> usize {
    handle.wrapping_sub(1) as usize
}

/// The value `state_get` reads for a handle.
pub open spec fn state_value(states: Seq<u64>, handle: i64) -> u64 {
    if cell_index(handle) < states.len() {
        states[cell_index(handle) as int]
    } else {
        UNDEFINED_BITS
    }
}

/// The cells after `state_set`: a handle that names no cell changes nothing.
pub open spec fn states_after_set(states: Seq<u64>, handle: i64, value: u64) -> Seq<u64> {
    if cell_index(handle) < states.len() {
        states.update(cell_index(handle) as int, value)
    } else {
        states
    }
}

/// The text a binding shows for a formatted value.
pub open spec fn bound_text(b: TextBinding, value: Seq<char>) -> Seq<char> {
    b.prefix@ + value + b.suffix@
}

/// The bindings of cell `handle`, in the order they were made.
pub open spec fn cell_bindings(m: Map<i64, Seq<TextBinding>>, handle: i64) -> Seq<TextBinding> {
    if m.contains_key(handle) {
        m[handle]
    } else {
        Seq::empty()
    }
}

/// The texts to show after cell `handle` changed: one per binding of that
/// cell, in the order they were made.
pub open spec fn updates_for(m: Map<i64, Seq<TextBinding>>, handle: i64, value: Seq<char>) -> Seq<(i64, Seq<char>)> {
    cell_bindings(m, handle).map_values(|b: TextBinding| (b.text_handle, bound_text(b, value)))
}

impl StateStore {
    /// The bindings of each cell, by handle.
    pub open spec fn spec_bindings(&self) -> Map<i64, Seq<TextBinding>> {
        self.bindings@.map_values(|v: Vec<TextBinding>| v@)
    }

    pub fn new() -> (s: StateStore)
        ensures
            s.states@.len() == 0,
            s.spec_bindings() == Map::<i64, Seq<TextBinding>>::empty(),
    {
        let s = StateStore { states: Vec::new(), bindings: HashMap::new() };
        assert(s.spec_bindings() =~= Map::<i64, Seq<TextBinding>>::empty());
        s
    }

    /// Creates a cell with an initial value; returns its handle, the number
    /// of cells so far.
    pub fn state_create(&mut self, initial: u64) -> (handle: i64)
        requires
            old(self).states@.len() < i64::MAX,
        ensures
            final(self).states@ == old(self).states@.push(initial),
            final(self).bindings == old(self).bindings,
            handle == final(self).states@.len(),
    {
        self.states.push(initial);
        self.states.len() as i64
    }

    /// The value of a cell; `undefined` for a handle that names none.
    pub fn state_get(&self, handle: i64) -> (value: u64)
        ensures
            value == state_value(self.states@, handle),
    {
        let idx = handle.wrapping_sub(1) as usize;
        if idx < self.states.len() {
            self.states[idx]
        } else {
            UNDEFINED_BITS
        }
    }

    /// Sets a cell (a handle that names none changes nothing) and returns
    /// the text each bound widget must now show, given the value as text.
    pub fn state_set(&mut self, handle: i64, value: u64, value_text: &str) -> (updates: Vec<(i64, String)>)
        ensures
            final(self).states@ == states_after_set(old(self).states@, handle, value),
            final(self).bindings == old(self).bindings,
            updates@.map_values(|u: (i64, String)| (u.0, u.1@)) == updates_for(
                old(self).spec_bindings(),
                handle,
                value_text@,
            ),
    {
        let idx = handle.wrapping_sub(1) as usize;
        if idx < self.states.len() {
            self.states.set(idx, value);
        }
        let mut updates: Vec<(i64, String)> = Vec::new();
        broadcast use vstd::std_specs::hash::group_hash_axioms;
        match self.bindings.get(&handle) {
            Some(bs) => {
                let ghost all = cell_bindings(self.spec_bindings(), handle);
                assert(bs@ == all);
                let n = bs.len();
                let mut i: usize = 0;
                while i < n
                    invariant
                        n == bs@.len(),
                        i <= n,
                        updates@.map_values(|u: (i64, String)| (u.0, u.1@)) =~= bs@.take(i as int).map_values(
                            |b: TextBinding| (b.text_handle, bound_text(b, value_text@)),
                        ),
                    decreases n - i,
                {
                    let ghost before = updates@;
                    let b = &bs[i];
                    let mut text = String::new();
                    push_str(&mut text, b.prefix.as_str());
                    push_str(&mut text, value_text);
                    push_str(&mut text, b.suffix.as_str());
                    updates.push((b.text_handle, text));
                    assert(updates@.map_values(|u: (i64, String)| (u.0, u.1@)) =~= before.map_values(
                        |u: (i64, String)| (u.0, u.1@),
                    ).push((b.text_handle, bound_text(*b, value_text@))));
                    assert(bs@.take(i + 1) =~= bs@.take(i as int).push(bs@[i as int]));
                    i = i + 1;
                }
                assert(bs@.take(n as int) =~= bs@);
            },
            None => {
                assert(updates_for(self.spec_bindings(), handle, value_text@) =~= Seq::<(i64, Seq<char>)>::empty());
            },
        }
        updates
    }
}

/// Binds a text widget to a state cell: when the cell changes, the widget
/// shows `<prefix><value><suffix>`.
pub fn bind_text_numeric(store: &mut StateStore, state_handle: i64, text_handle: i64, prefix: String, suffix: String)
    ensures
        final(store).states == old(store).states,
        final(store).spec_bindings() == old(store).spec_bindings().insert(
            state_handle,
            cell_bindings(old(store).spec_bindings(), state_handle).push(
                TextBinding { text_handle, prefix, suffix },
            ),
        ),
{
    broadcast use vstd::std_specs::hash::group_hash_axioms;
    let ghost m0 = store.spec_bindings();
    let mut bs = match store.bindings.remove(&state_handle) {
        Some(v) => v,
        None => Vec::new(),
    };
    assert(bs@ == cell_bindings(m0, state_handle));
    bs.push(TextBinding { text_handle, prefix, suffix });
    store.bindings.insert(state_handle, bs);
    assert(store.spec_bindings() =~= m0.insert(state_handle, cell_bindings(m0, state_handle).push(
        TextBinding { text_handle, prefix, suffix },
    )));
}

/// A cell reads back the value it was created with, under the handle that
/// `state_create` returned.
pub proof fn lemma_create_then_get(states: Seq<u64>, initial: u64)
    requires
        states.len() < i64::MAX,
        states.len() < usize::MAX,
    ensures
        state_value(states.push(initial), (states.len() + 1) as i64) == initial,
{
    let h = (states.len() + 1) as i64;
    assert(h.wrapping_sub(1) == states.len());
    assert(cell_index(h) == states.len());
}

/// A cell reads back the last value set on it, and setting one cell leaves
/// every other cell as it was.
pub proof fn lemma_get_after_set(states: Seq<u64>, handle: i64, value: u64, other: i64)
    requires
        cell_index(handle) < states.len(),
    ensures
        state_value(states_after_set(states, handle, value), handle) == value,
        cell_index(other) != cell_index(handle) ==> state_value(states_after_set(states, handle, value), other)
            == state_value(states, other),
{
}

/// A binding made last is the last widget refreshed when its cell is set,
/// with `<prefix><value><suffix>`; cells it is not bound to refresh as before.
pub proof fn lemma_bind_then_set(
    m: Map<i64, Seq<TextBinding>>,
    handle: i64,
    b: TextBinding,
    value: Seq<char>,
    other: i64,
)
    ensures
        ({
            let m2 = m.insert(handle, cell_bindings(m, handle).push(b));
            &&& updates_for(m2, handle, value) == updates_for(m, handle, value).push(
                (b.text_handle, b.prefix@ + value + b.suffix@),
            )
            &&& other != handle ==> updates_for(m2, other, value) == updates_for(m, other, value)
        }),
{
    let m2 = m.insert(handle, cell_bindings(m, handle).push(b));
    assert(updates_for(m2, handle, value) =~= updates_for(m, handle, value).push(
        (b.text_handle, b.prefix@ + value + b.suffix@),
    ));
    if other != handle {
        assert(cell_bindings(m2, other) == cell_bindings(m, other));
    }
}

/// The system icons an image can show.
#[derive(Clone, Copy, PartialEq, Eq, Structural)]
pub enum SystemIcon {
    Warning,
    Information,
    Error,
    Question,
    Application,
    Shield,
}

/// The icon a symbol name selects; unknown names show the application icon.
pub open spec fn icon_spec(name: Seq<char>) -> SystemIcon {
    if name == "exclamationmark.triangle"@ || name == "warning"@ {
        SystemIcon::Warning
    } else if name == "info.circle"@ || name == "info"@ {
        SystemIcon::Information
    } else if name == "xmark.circle"@ || name == "error"@ {
        SystemIcon::Error
    } else if name == "questionmark.circle"@ || name == "question"@ {
        SystemIcon::Question
    } else if name == "app"@ || name == "application"@ {
        SystemIcon::Application
    } else if name == "shield"@ || name == "shield.fill"@ {
        SystemIcon::Shield
    } else {
        SystemIcon::Application
    }
}

pub fn system_icon_for(name: &str) -> (icon: SystemIcon)
    ensures
        icon == icon_spec(name@),
{
    if chars_eq(name, "exclamationmark.triangle") || chars_eq(name, "warning") {
        SystemIcon::Warning
    } else if chars_eq(name, "info.circle") || chars_eq(name, "info") {
        SystemIcon::Information
    } else if chars_eq(name, "xmark.circle") || chars_eq(name, "error") {
        SystemIcon::Error
    } else if chars_eq(name, "questionmark.circle") || chars_eq(name, "question") {
        SystemIcon::Question
    } else if chars_eq(name, "app") || chars_eq(name, "application") {
        SystemIcon::Application
    } else if chars_eq(name, "shield") || chars_eq(name, "shield.fill") {
        SystemIcon::Shield
    } else {
        SystemIcon::Application
    }
}

/// The port the input fuzzer listens on: 7676 unless a positive port is
/// asked for (taken modulo 2^16).
pub fn geisterhand_port(port: i32) -> (p: u16)
    ensures
        p == (if port <= 0 { 7676u16 } else { port as u16 }),
{
    if port <= 0 {
        7676
    } else {
        port as u16
    }
}

/// Starting the input fuzzer: the server is started once. When it is
/// already running nothing happens; else it listens on the port that
/// `geisterhand_port` gives (and counts as running from then on).
pub fn geisterhand_start(already_running: bool, port: i32) -> (r: Option<u16>)
    ensures
        r == (if already_running {
            None
        } else {
            Some(if port <= 0 { 7676u16 } else { port as u16 })
        }),
{
    if already_running {
        None
    } else {
        Some(geisterhand_port(port))
    }
}

/// The names an image widget knows, each with its system icon: the
/// warning triangle, the information circle, the error cross, the question
/// mark, the application icon and the shield.
#[verifier::rlimit(40)]
pub proof fn lemma_icon_names()
    ensures
        icon_spec("exclamationmark.triangle"@) == SystemIcon::Warning,
        icon_spec("warning"@) == SystemIcon::Warning,
        icon_spec("info.circle"@) == SystemIcon::Information,
        icon_spec("info"@) == SystemIcon::Information,
        icon_spec("xmark.circle"@) == SystemIcon::Error,
        icon_spec("error"@) == SystemIcon::Error,
        icon_spec("questionmark.circle"@) == SystemIcon::Question,
        icon_spec("question"@) == SystemIcon::Question,
        icon_spec("app"@) == SystemIcon::Application,
        icon_spec("application"@) == SystemIcon::Application,
        icon_spec("shield"@) == SystemIcon::Shield,
        icon_spec("shield.fill"@) == SystemIcon::Shield,
{
    reveal_strlit("exclamationmark.triangle");
    reveal_strlit("warning");
    reveal_strlit("info.circle");
    reveal_strlit("info");
    reveal_strlit("xmark.circle");
    reveal_strlit("error");
    reveal_strlit("questionmark.circle");
    reveal_strlit("question");
    reveal_strlit("app");
    reveal_strlit("application");
    reveal_strlit("shield");
    reveal_strlit("shield.fill");
    assert("exclamationmark.triangle"@.len() == 24);
    assert("warning"@.len() == 7);
    assert("info.circle"@.len() == 11);
    assert("info"@.len() == 4);
    assert("xmark.circle"@.len() == 12);
    assert("error"@.len() == 5);
    assert("questionmark.circle"@.len() == 19);
    assert("question"@.len() == 8);
    assert("app"@.len() == 3);
    assert("application"@.len() == 11);
    assert("shield"@.len() == 6);
    assert("shield.fill"@.len() == 11);
    assert("info.circle"@[0] != "application"@[0]);
    assert("info.circle"@[0] != "shield.fill"@[0]);
    assert("application"@[0] != "shield.fill"@[0]);
    assert(icon_spec("exclamationmark.triangle"@) == SystemIcon::Warning);
    assert(icon_spec("warning"@) == SystemIcon::Warning);
    assert(icon_spec("info.circle"@) == SystemIcon::Information);
    assert(icon_spec("info"@) == SystemIcon::Information);
    assert(icon_spec("xmark.circle"@) == SystemIcon::Error);
    assert(icon_spec("error"@) == SystemIcon::Error);
    assert(icon_spec("questionmark.circle"@) == SystemIcon::Question);
    assert(icon_spec("question"@) == SystemIcon::Question);
    assert(icon_spec("app"@) == SystemIcon::Application);
    assert(icon_spec("application"@) == SystemIcon::Application);
    assert(icon_spec("shield"@) == SystemIcon::Shield);
}

} // verus!
