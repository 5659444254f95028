//! Key bindings and the resolution of key presses, single keys and chords,
//! into actions.

use crate::action::{Action, ActionView};
use crate::mode::Mode;
use crate::text::{decimal_digits, push_char, push_decimal};
use vstd::prelude::*;
use vstd::string::StringExecFns;

verus! {

/// One key press, named by its descriptor (`q`, `ctrl-c`, `esc`). Two key
/// presses are the same key if their descriptors are the same text.
#[derive(Debug, PartialEq, Eq, Hash)]
pub struct Key {
    pub descriptor: String,
}

impl View for Key {
    type V = Seq<char>;

    open spec fn view(&self) -> Seq<char> {
        self.descriptor@
    }
}

impl Clone for Key {
    fn clone(&self) -> (r: Self)
        ensures
            r@ == self@,
    {
        Key { descriptor: self.descriptor.clone() }
    }
}

impl Key {
    /// The key with the given descriptor.
    pub fn new(descriptor: &str) -> (key: Key)
        ensures
            key@ == descriptor@,
    {
        Key { descriptor: descriptor.to_owned() }
    }
}

/// Which key of the keyboard was pressed.
#[derive(Clone, Copy, Debug, PartialEq, Eq, Hash, Structural)]
pub enum KeyCode {
    Backspace,
    Enter,
    Left,
    Right,
    Up,
    Down,
    Home,
    End,
    PageUp,
    PageDown,
    Tab,
    BackTab,
    Delete,
    Insert,
    F(u8),
    Char(char),
    Esc,
    Other,
}

impl KeyCode {
    /// The name of the key: a character key is named by its character, but
    /// the space bar by the word `space`; a function key by `f` and its
    /// number; any other key by a word.
    pub open spec fn name(self) -> Seq<char> {
        match self {
            KeyCode::Backspace => "backspace"@,
            KeyCode::Enter => "enter"@,
            KeyCode::Left => "left"@,
            KeyCode::Right => "right"@,
            KeyCode::Up => "up"@,
            KeyCode::Down => "down"@,
            KeyCode::Home => "home"@,
            KeyCode::End => "end"@,
            KeyCode::PageUp => "pageup"@,
            KeyCode::PageDown => "pagedown"@,
            KeyCode::Tab => "tab"@,
            KeyCode::BackTab => "backtab"@,
            KeyCode::Delete => "delete"@,
            KeyCode::Insert => "insert"@,
            KeyCode::F(n) => "f"@ + decimal_digits(n as nat),
            KeyCode::Char(c) => if c == ' ' {
                "space"@
            } else {
                seq![c]
            },
            KeyCode::Esc => "esc"@,
            KeyCode::Other => "unknown"@,
        }
    }
}

/// A key press as the terminal reports it: the key, and whether the control
/// and the alt key were held.
#[derive(Clone, Copy, Debug, PartialEq, Eq, Hash, Structural)]
pub struct KeyPress {
    pub code: KeyCode,
    pub ctrl: bool,
    pub alt: bool,
}

impl KeyPress {
    /// The descriptor of the key press: `ctrl-` if the control key was held,
    /// then `alt-` if the alt key was held, then the name of the key.
    pub open spec fn descriptor(self) -> Seq<char> {
        (if self.ctrl {
            "ctrl-"@
        } else {
            Seq::empty()
        }) + (if self.alt {
            "alt-"@
        } else {
            Seq::empty()
        }) + self.code.name()
    }

    /// The key that the key bindings know this key press by.
    pub fn key(&self) -> (key: Key)
        ensures
            key@ == self.descriptor(),
    {
        let mut descriptor = String::new();
        if self.ctrl {
            descriptor.append("ctrl-");
        }
        if self.alt {
            descriptor.append("alt-");
        }
        let ghost prefix = descriptor@;
        assert(prefix =~= (if self.ctrl {
            "ctrl-"@
        } else {
            Seq::empty()
        }) + (if self.alt {
            "alt-"@
        } else {
            Seq::empty()
        }));
        match self.code {
            KeyCode::Backspace => descriptor.append("backspace"),
            KeyCode::Enter => descriptor.append("enter"),
            KeyCode::Left => descriptor.append("left"),
            KeyCode::Right => descriptor.append("right"),
            KeyCode::Up => descriptor.append("up"),
            KeyCode::Down => descriptor.append("down"),
            KeyCode::Home => descriptor.append("home"),
            KeyCode::End => descriptor.append("end"),
            KeyCode::PageUp => descriptor.append("pageup"),
            KeyCode::PageDown => descriptor.append("pagedown"),
            KeyCode::Tab => descriptor.append("tab"),
            KeyCode::BackTab => descriptor.append("backtab"),
            KeyCode::Delete => descriptor.append("delete"),
            KeyCode::Insert => descriptor.append("insert"),
            KeyCode::F(n) => {
                descriptor.append("f");
                push_decimal(&mut descriptor, n as u32);
                assert(descriptor@ =~= prefix + ("f"@ + decimal_digits(n as nat)));
            },
            KeyCode::Char(c) => {
                if c == ' ' {
                    descriptor.append("space");
                } else {
                    push_char(&mut descriptor, c);
                    assert(descriptor@ =~= prefix + seq![c]);
                }
            },
            KeyCode::Esc => descriptor.append("esc"),
            KeyCode::Other => descriptor.append("unknown"),
        }
        Key { descriptor }
    }
}

/// The descriptors of a sequence of keys.
pub open spec fn key_names(keys: Seq<Key>) -> Seq<Seq<char>> {
    Seq::new(keys.len(), |i: int| keys[i]@)
}

/// One entry of the key binding table: in `mode`, the keys pressed one after
/// the other stand for `action`.
#[derive(Debug)]
pub struct KeyBinding {
    pub mode: Mode,
    pub keys: Vec<Key>,
    pub action: Action,
}

/// A binding as plain values.
pub ghost struct BindingView {
    pub mode: Mode,
    pub keys: Seq<Seq<char>>,
    pub action: ActionView,
}

impl View for KeyBinding {
    type V = BindingView;

    open spec fn view(&self) -> BindingView {
        BindingView { mode: self.mode, keys: key_names(self.keys@), action: self.action@ }
    }
}

/// What a list of bindings holds.
pub open spec fn binding_views(bindings: Seq<KeyBinding>) -> Seq<BindingView> {
    Seq::new(bindings.len(), |i: int| bindings[i]@)
}

/// The action that the first binding of `table` for exactly these keys in
/// this mode names.
pub open spec fn bound_action(table: Seq<BindingView>, mode: Mode, keys: Seq<Seq<char>>) -> Option<
    ActionView,
>
    decreases table.len(),
{
    if table.len() == 0 {
        None
    } else if table.first().mode == mode && table.first().keys == keys {
        Some(table.first().action)
    } else {
        bound_action(table.drop_first(), mode, keys)
    }
}

/// Whether the binding starts with these keys and goes on after them.
pub open spec fn continues(binding: BindingView, mode: Mode, keys: Seq<Seq<char>>) -> bool {
    &&& binding.mode == mode
    &&& keys.len() < binding.keys.len()
    &&& binding.keys.take(keys.len() as int) == keys
}

/// Whether these keys are the start of a longer key sequence that is bound
/// in this mode.
pub open spec fn has_continuation(table: Seq<BindingView>, mode: Mode, keys: Seq<Seq<char>>) -> bool {
    exists|i: int| 0 <= i < table.len() && continues(#[trigger] table[i], mode, keys)
}

/// What a key press leads to when no keys were pressed before it: the
/// action bound to the key, if there is one; else the key is kept if a bound
/// sequence starts with it, and dropped if none does.
pub open spec fn resolve_fresh(table: Seq<BindingView>, mode: Mode, key: Seq<char>) -> (
    Option<ActionView>,
    Seq<Seq<char>>,
) {
    match bound_action(table, mode, seq![key]) {
        Some(action) => (Some(action), Seq::empty()),
        None => if has_continuation(table, mode, seq![key]) {
            (None, seq![key])
        } else {
            (None, Seq::empty())
        },
    }
}

/// What a key press leads to after the keys in `history`: the action it
/// gives rise to, if any, and the keys to remember. If the history with the
/// new key is bound, the bound action comes out and the history is
/// forgotten. Else, if a bound sequence goes on from there, the key joins
/// the history. Else the history is forgotten and the key is taken as if
/// pressed first.
pub open spec fn resolve(
    table: Seq<BindingView>,
    mode: Mode,
    history: Seq<Seq<char>>,
    key: Seq<char>,
) -> (Option<ActionView>, Seq<Seq<char>>) {
    match bound_action(table, mode, history.push(key)) {
        Some(action) => (Some(action), Seq::empty()),
        None => if has_continuation(table, mode, history.push(key)) {
            (None, history.push(key))
        } else {
            resolve_fresh(table, mode, key)
        },
    }
}

/// A bound sequence is the key sequence of some binding of the mode.
pub proof fn lemma_bound_action_has_binding(
    table: Seq<BindingView>,
    mode: Mode,
    keys: Seq<Seq<char>>,
)
    requires
        bound_action(table, mode, keys) is Some,
    ensures
        exists|i: int|
            0 <= i < table.len() && (#[trigger] table[i]).mode == mode && table[i].keys == keys,
    decreases table.len(),
{
    if table.first().mode == mode && table.first().keys == keys {
        assert(table[0].mode == mode && table[0].keys == keys);
    } else {
        let rest = table.drop_first();
        lemma_bound_action_has_binding(rest, mode, keys);
        let i = choose|i: int|
            0 <= i < rest.len() && (#[trigger] rest[i]).mode == mode && rest[i].keys == keys;
        assert(table[i + 1] == rest[i]);
    }
}

/// A sequence that no binding of the mode has is not bound.
pub proof fn lemma_bound_action_none(table: Seq<BindingView>, mode: Mode, keys: Seq<Seq<char>>)
    requires
        forall|i: int|
            0 <= i < table.len() ==> !((#[trigger] table[i]).mode == mode && table[i].keys == keys),
    ensures
        bound_action(table, mode, keys) is None,
    decreases table.len(),
{
    if table.len() > 0 {
        let rest = table.drop_first();
        assert(table[0] == table.first());
        assert forall|i: int| 0 <= i < rest.len() implies !((#[trigger] rest[i]).mode == mode
            && rest[i].keys == keys) by {
            assert(rest[i] == table[i + 1]);
        }
        lemma_bound_action_none(rest, mode, keys);
    }
}

/// The first binding of the mode with these keys gives the bound action.
pub proof fn lemma_bound_action_first(
    table: Seq<BindingView>,
    mode: Mode,
    keys: Seq<Seq<char>>,
    k: int,
)
    requires
        0 <= k < table.len(),
        table[k].mode == mode && table[k].keys == keys,
        forall|i: int| 0 <= i < k ==> !((#[trigger] table[i]).mode == mode && table[i].keys == keys),
    ensures
        bound_action(table, mode, keys) == Some(table[k].action),
    decreases k,
{
    if k > 0 {
        let rest = table.drop_first();
        assert(table[0] == table.first());
        assert forall|i: int| 0 <= i < k - 1 implies !((#[trigger] rest[i]).mode == mode
            && rest[i].keys == keys) by {
            assert(rest[i] == table[i + 1]);
        }
        assert(rest[k - 1] == table[k]);
        lemma_bound_action_first(rest, mode, keys, k - 1);
    }
}

/// A sequence of two keys that is bound, and whose first key alone is not,
/// does not fire on its first key: the key is remembered. It fires on its
/// second key, and the history is then forgotten.
pub proof fn lemma_chord_fires_on_second_key(
    table: Seq<BindingView>,
    mode: Mode,
    first: Seq<char>,
    second: Seq<char>,
)
    requires
        bound_action(table, mode, seq![first, second]) is Some,
        bound_action(table, mode, seq![first]) is None,
    ensures
        resolve(table, mode, Seq::empty(), first) == (None::<ActionView>, seq![first]),
        resolve(table, mode, seq![first], second) == (
            bound_action(table, mode, seq![first, second]),
            Seq::<Seq<char>>::empty(),
        ),
{
    let chord = seq![first, second];
    lemma_bound_action_has_binding(table, mode, chord);
    let i = choose|i: int|
        0 <= i < table.len() && (#[trigger] table[i]).mode == mode && table[i].keys == chord;
    assert(chord.take(1) =~= seq![first]);
    assert(continues(table[i], mode, seq![first]));
    assert(Seq::<Seq<char>>::empty().push(first) =~= seq![first]);
    assert(seq![first].push(second) =~= chord);
}

/// A key that neither completes nor continues what was pressed before it
/// makes the history forgotten, and is taken as if pressed first.
pub proof fn lemma_unrelated_key_is_taken_fresh(
    table: Seq<BindingView>,
    mode: Mode,
    history: Seq<Seq<char>>,
    key: Seq<char>,
)
    requires
        bound_action(table, mode, history.push(key)) is None,
        !has_continuation(table, mode, history.push(key)),
    ensures
        resolve(table, mode, history, key) == resolve(table, mode, Seq::empty(), key),
        resolve(table, mode, history, key) == resolve_fresh(table, mode, key),
{
    assert(Seq::<Seq<char>>::empty().push(key) =~= seq![key]);
}

/// The keys remembered after a key press are the start of a longer bound
/// sequence, or there are none; and when an action comes out, there are
/// none.
pub proof fn lemma_history_is_prefix(
    table: Seq<BindingView>,
    mode: Mode,
    history: Seq<Seq<char>>,
    key: Seq<char>,
)
    ensures
        resolve(table, mode, history, key).1.len() == 0 || has_continuation(
            table,
            mode,
            resolve(table, mode, history, key).1,
        ),
        resolve(table, mode, history, key).0 is Some ==> resolve(table, mode, history, key).1.len()
            == 0,
{
}

/// Tests whether two key sequences are the same.
pub fn same_keys(a: &Vec<Key>, b: &Vec<Key>) -> (same: bool)
    ensures
        same == (key_names(a@) == key_names(b@)),
{
    if a.len() != b.len() {
        assert(key_names(a@).len() != key_names(b@).len());
        return false;
    }
    let mut i: usize = 0;
    while i < a.len()
        invariant
            a@.len() == b@.len(),
            i <= a@.len(),
            forall|k: int| 0 <= k < i ==> a@[k]@ == b@[k]@,
        decreases a@.len() - i,
    {
        if a[i].descriptor != b[i].descriptor {
            assert(key_names(a@)[i as int] != key_names(b@)[i as int]);
            return false;
        }
        i += 1;
    }
    assert(key_names(a@) =~= key_names(b@));
    true
}

/// Tests whether `longer` starts with `keys` and goes on after them.
pub fn goes_on_from(longer: &Vec<Key>, keys: &Vec<Key>) -> (b: bool)
    ensures
        b == (keys@.len() < longer@.len() && key_names(longer@).take(keys@.len() as int)
            == key_names(keys@)),
{
    if keys.len() >= longer.len() {
        return false;
    }
    let ghost head = key_names(longer@).take(keys@.len() as int);
    let mut i: usize = 0;
    while i < keys.len()
        invariant
            keys@.len() < longer@.len(),
            head == key_names(longer@).take(keys@.len() as int),
            i <= keys@.len(),
            forall|k: int| 0 <= k < i ==> longer@[k]@ == keys@[k]@,
        decreases keys@.len() - i,
    {
        if longer[i].descriptor != keys[i].descriptor {
            assert(head[i as int] != key_names(keys@)[i as int]);
            return false;
        }
        i += 1;
    }
    assert(head =~= key_names(keys@));
    true
}

/// The key binding table: for each mode, which key sequences stand for
/// which action. Where two bindings of a mode have the same keys, the first
/// counts.
#[derive(Debug)]
pub struct KeyBindings {
    pub bindings: Vec<KeyBinding>,
}

impl View for KeyBindings {
    type V = Seq<BindingView>;

    open spec fn view(&self) -> Seq<BindingView> {
        binding_views(self.bindings@)
    }
}

impl KeyBindings {
    /// A table without bindings.
    pub fn new() -> (table: KeyBindings)
        ensures
            table@ == Seq::<BindingView>::empty(),
    {
        let table = KeyBindings { bindings: Vec::new() };
        assert(table@ =~= Seq::<BindingView>::empty());
        table
    }

    /// Adds a binding at the end of the table.
    pub fn bind(&mut self, mode: Mode, keys: Vec<Key>, action: Action)
        ensures
            final(self)@ == old(self)@.push(
                BindingView { mode, keys: key_names(keys@), action: action@ },
            ),
    {
        self.bindings.push(KeyBinding { mode, keys, action });
        assert(self@ =~= old(self)@.push(
            BindingView { mode, keys: key_names(keys@), action: action@ },
        ));
    }

    /// The action bound to exactly these keys in this mode.
    pub fn lookup(&self, mode: Mode, keys: &Vec<Key>) -> (action: Option<Action>)
        ensures
            match action {
                Some(a) => bound_action(self@, mode, key_names(keys@)) == Some(a@),
                None => bound_action(self@, mode, key_names(keys@)) is None,
            },
    {
        let mut i: usize = 0;
        while i < self.bindings.len()
            invariant
                i <= self.bindings@.len(),
                forall|k: int|
                    0 <= k < i ==> !((#[trigger] self@[k]).mode == mode && self@[k].keys
                        == key_names(keys@)),
            decreases self.bindings@.len() - i,
        {
            let binding = &self.bindings[i];
            if binding.mode == mode && same_keys(&binding.keys, keys) {
                proof {
                    lemma_bound_action_first(self@, mode, key_names(keys@), i as int);
                }
                return Some(binding.action.clone());
            }
            i += 1;
        }
        proof {
            lemma_bound_action_none(self@, mode, key_names(keys@));
        }
        None
    }

    /// Tests whether a longer sequence that starts with these keys is bound
    /// in this mode.
    pub fn continues_from(&self, mode: Mode, keys: &Vec<Key>) -> (b: bool)
        ensures
            b == has_continuation(self@, mode, key_names(keys@)),
    {
        let mut i: usize = 0;
        while i < self.bindings.len()
            invariant
                i <= self.bindings@.len(),
                forall|k: int| 0 <= k < i ==> !continues(#[trigger] self@[k], mode, key_names(keys@)),
            decreases self.bindings@.len() - i,
        {
            let binding = &self.bindings[i];
            if binding.mode == mode && goes_on_from(&binding.keys, keys) {
                assert(continues(self@[i as int], mode, key_names(keys@)));
                return true;
            }
            i += 1;
        }
        false
    }
}

/// A key sequence as the status line shows it: each key between angle
/// brackets.
pub open spec fn keys_text(keys: Seq<Seq<char>>) -> Seq<char>
    decreases keys.len(),
{
    if keys.len() == 0 {
        Seq::empty()
    } else {
        keys_text(keys.drop_last()) + "<"@ + keys.last() + ">"@
    }
}

/// The hint that the status line shows for a binding: its keys, a space,
/// and the words for its action.
pub open spec fn hint_text(binding: BindingView) -> Seq<char> {
    keys_text(binding.keys) + " "@ + binding.action.label()
}

/// Whether the status line of `mode` shows the binding among its hints of
/// rank `rank`: it does if the binding is one of the mode, its action has
/// this rank, and there are words for its action.
pub open spec fn is_shown(binding: BindingView, mode: Mode, rank: nat) -> bool {
    binding.mode == mode && binding.action.order() == rank && binding.action.label().len() > 0
}

/// A status line with one more hint: hints are set apart by two spaces.
pub open spec fn with_hint(line: Seq<char>, hint: Seq<char>) -> Seq<char> {
    if line.len() == 0 {
        hint
    } else {
        line + "  "@ + hint
    }
}

/// The status line of `mode` as far as it is made of the hints of a rank
/// below `rank` and of those of rank `rank` among the first `n` bindings.
pub open spec fn status_line_upto(table: Seq<BindingView>, mode: Mode, rank: nat, n: nat) -> Seq<
    char,
>
    decreases rank, n,
{
    if n == 0 {
        if rank == 0 {
            Seq::empty()
        } else {
            status_line_upto(table, mode, (rank - 1) as nat, table.len())
        }
    } else {
        let line = status_line_upto(table, mode, rank, (n - 1) as nat);
        if n <= table.len() && is_shown(table[n - 1], mode, rank) {
            with_hint(line, hint_text(table[n - 1]))
        } else {
            line
        }
    }
}

/// The status line of `mode`: the hints for the bindings of the mode whose
/// action has words, those of a smaller rank first, those of one rank in the
/// order of the table.
pub open spec fn status_line(table: Seq<BindingView>, mode: Mode) -> Seq<char> {
    status_line_upto(table, mode, 100, table.len())
}

/// Appends a key sequence, as the status line shows it, to a text.
pub fn push_keys(line: &mut String, keys: &Vec<Key>)
    ensures
        final(line)@ == old(line)@ + keys_text(key_names(keys@)),
{
    let ghost names = key_names(keys@);
    let mut i: usize = 0;
    assert(names.take(0) =~= Seq::empty());
    assert(line@ + Seq::<char>::empty() =~= line@);
    while i < keys.len()
        invariant
            i <= keys@.len(),
            names == key_names(keys@),
            line@ == old(line)@ + keys_text(names.take(i as int)),
        decreases keys@.len() - i,
    {
        let ghost before = line@;
        line.append("<");
        line.append(keys[i].descriptor.as_str());
        line.append(">");
        proof {
            let head = names.take(i + 1);
            assert(head.drop_last() =~= names.take(i as int));
            assert(head.last() == keys@[i as int]@);
            assert(line@ =~= old(line)@ + keys_text(head));
        }
        i += 1;
    }
    assert(names.take(i as int) =~= names);
}

impl KeyBindings {
    /// Builds the status line of `mode`.
    pub fn status_line(&self, mode: Mode) -> (line: String)
        ensures
            line@ == status_line(self@, mode),
    {
        let n = self.bindings.len();
        let mut line = String::new();
        let mut rank: usize = 0;
        while rank <= 100
            invariant
                n == self.bindings@.len(),
                rank <= 101,
                line@ == status_line_upto(self@, mode, rank as nat, 0),
            decreases 101 - rank,
        {
            let mut i: usize = 0;
            while i < n
                invariant
                    n == self.bindings@.len(),
                    rank <= 100,
                    i <= n,
                    line@ == status_line_upto(self@, mode, rank as nat, i as nat),
                decreases n - i,
            {
                let binding = &self.bindings[i];
                if binding.mode == mode && binding.action.order() == rank {
                    let label = binding.action.label();
                    if !label.is_empty() {
                        let ghost before = line@;
                        if !line.as_str().is_empty() {
                            line.append("  ");
                        }
                        push_keys(&mut line, &binding.keys);
                        line.append(" ");
                        line.append(label);
                        assert(line@ =~= with_hint(before, hint_text(self@[i as int])));
                    }
                }
                i += 1;
            }
            rank += 1;
        }
        line
    }
}

/// Turns key presses into actions. It remembers the keys pressed since the
/// last tick that may still grow into a bound sequence.
#[derive(Debug)]
pub struct InputResolver {
    pub history: Vec<Key>,
}

impl View for InputResolver {
    type V = Seq<Seq<char>>;

    open spec fn view(&self) -> Seq<Seq<char>> {
        key_names(self.history@)
    }
}

impl InputResolver {
    /// A resolver that remembers no key.
    pub fn new() -> (resolver: InputResolver)
        ensures
            resolver@ == Seq::<Seq<char>>::empty(),
    {
        let resolver = InputResolver { history: Vec::new() };
        assert(resolver@ =~= Seq::<Seq<char>>::empty());
        resolver
    }

    /// Forgets the keys pressed so far. This happens at every tick, so that
    /// the start of a chord lingers for one tick interval at most.
    pub fn clear(&mut self)
        ensures
            final(self)@ == Seq::<Seq<char>>::empty(),
    {
        self.history.clear();
        assert(self@ =~= Seq::<Seq<char>>::empty());
    }

    /// Takes one key press in the given mode; gives the action that it
    /// completes, if any.
    pub fn press(&mut self, bindings: &KeyBindings, mode: Mode, key: Key) -> (action: Option<Action>)
        ensures
            match action {
                Some(a) => resolve(bindings@, mode, old(self)@, key@).0 == Some(a@),
                None => resolve(bindings@, mode, old(self)@, key@).0 is None,
            },
            final(self)@ == resolve(bindings@, mode, old(self)@, key@).1,
    {
        self.history.push(key.clone());
        assert(self@ =~= old(self)@.push(key@));
        match bindings.lookup(mode, &self.history) {
            Some(action) => {
                self.clear();
                return Some(action);
            },
            None => {},
        }
        if bindings.continues_from(mode, &self.history) {
            return None;
        }
        self.history.clear();
        self.history.push(key);
        assert(self@ =~= seq![key@]);
        match bindings.lookup(mode, &self.history) {
            Some(action) => {
                self.clear();
                Some(action)
            },
            None => {
                if !bindings.continues_from(mode, &self.history) {
                    self.clear();
                }
                None
            },
        }
    }
}

} // verus!
