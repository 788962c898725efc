//! The expansion rules: which shortcut fires when a key is released, and the
//! keys that the virtual keyboard presses to erase the abbreviation and type
//! its expansion.

use vstd::prelude::*;

use crate::keylog::{buffer_matches, log_keystroke, window};
use crate::keymap::{
    char_key, char_to_key, is_key_char, key_char, key_to_char, linux_code, lowercase_first, OutKey,
};
use crate::text::chars_of;

verus! {

/// A text shortcut: typing `alias` replaces it with `expansion`.
pub struct Shortcut {
    pub alias: String,
    pub expansion: String,
}

/// One thing the virtual keyboard does.
#[derive(Clone, Copy, Debug, PartialEq, Eq, Structural)]
pub enum KeyAction {
    Press(OutKey),
    Release(OutKey),
    Sync,
}

/// The trade mark sign, typed through its Unicode code point.
pub const TRADE_MARK: char = '\u{2122}';

/// Pressing and releasing `k`.
pub open spec fn tap(k: OutKey) -> Seq<KeyAction> {
    seq![KeyAction::Press(k), KeyAction::Release(k)]
}

/// `n` taps of the backspace key.
pub open spec fn erase_actions(n: nat) -> Seq<KeyAction>
    decreases n,
{
    if n == 0 {
        Seq::empty()
    } else {
        erase_actions((n - 1) as nat) + tap(OutKey::BackSpace)
    }
}

/// Ctrl+Shift+U, the code point 2122, Enter: the sequence that enters the
/// trade mark sign.
pub open spec fn trade_mark_actions() -> Seq<KeyAction> {
    seq![
        KeyAction::Press(OutKey::LeftControl),
        KeyAction::Press(OutKey::LeftShift),
        KeyAction::Press(OutKey::U),
        KeyAction::Release(OutKey::U),
        KeyAction::Release(OutKey::LeftShift),
        KeyAction::Release(OutKey::LeftControl),
    ] + tap(OutKey::Digit2) + tap(OutKey::Digit1) + tap(OutKey::Digit2) + tap(OutKey::Digit2) + tap(
        OutKey::Enter,
    )
}

/// What typing the character `c` takes: the trade mark sequence for the
/// trade mark sign, a tap of the key of its lowercase mapping where there is
/// one, and nothing for any other character.
pub open spec fn char_actions(c: char) -> Seq<KeyAction> {
    if c == TRADE_MARK {
        trade_mark_actions()
    } else {
        match char_key(lowercase_first(c)) {
            Some(k) => tap(k),
            None => Seq::empty(),
        }
    }
}

/// What typing the characters `s` one after the other takes.
pub open spec fn type_actions(s: Seq<char>) -> Seq<KeyAction>
    decreases s.len(),
{
    if s.len() == 0 {
        Seq::empty()
    } else {
        type_actions(s.drop_last()) + char_actions(s.last())
    }
}

/// Replacing `alias` by `expansion`: one backspace per character of the
/// alias, a sync, the keys that type the expansion, and a final sync.
pub open spec fn replacement_actions(alias: Seq<char>, expansion: Seq<char>) -> Seq<KeyAction> {
    erase_actions(alias.len()) + seq![KeyAction::Sync] + type_actions(expansion) + seq![
        KeyAction::Sync,
    ]
}

/// Typing is per character: typing `s` and then `t` takes the actions of
/// `s` followed by those of `t`.
pub proof fn lemma_typing_concatenates(s: Seq<char>, t: Seq<char>)
    ensures
        type_actions(s + t) == type_actions(s) + type_actions(t),
    decreases t.len(),
{
    if t.len() == 0 {
        assert(s + t =~= s);
        assert(type_actions(s) + type_actions(t) =~= type_actions(s));
    } else {
        lemma_typing_concatenates(s, t.drop_last());
        assert((s + t).drop_last() =~= s + t.drop_last());
        assert((s + t).last() == t.last());
        assert(type_actions(s) + type_actions(t.drop_last()) + char_actions(t.last()) =~= type_actions(
            s,
        ) + (type_actions(t.drop_last()) + char_actions(t.last())));
    }
}

/// Typing a single character takes exactly that character's actions.
pub proof fn lemma_typing_one_char(c: char)
    ensures
        type_actions(seq![c]) == char_actions(c),
{
    assert(seq![c].drop_last() =~= Seq::<char>::empty());
    assert(seq![c].last() == c);
    assert(type_actions(Seq::<char>::empty()) == Seq::<KeyAction>::empty());
    assert(Seq::<KeyAction>::empty() + char_actions(c) =~= char_actions(c));
}

/// Erasing `n` characters taps Backspace `n` times: a press and a release
/// for each character, and nothing else.
pub proof fn lemma_erase_taps_backspace(n: nat)
    ensures
        erase_actions(n).len() == 2 * n,
        forall|i: int|
            0 <= i < n ==> #[trigger] erase_actions(n)[2 * i] == KeyAction::Press(OutKey::BackSpace)
                && erase_actions(n)[2 * i + 1] == KeyAction::Release(OutKey::BackSpace),
    decreases n,
{
    if n > 0 {
        lemma_erase_taps_backspace((n - 1) as nat);
    }
}

/// Typing text that is made of shortcut characters (after lowercasing)
/// taps, for each character in order, the one key that is read back as
/// that character: the `i`-th character gives a press at position `2 i`
/// and a release of the same key at `2 i + 1`.
pub proof fn lemma_typing_reads_back(s: Seq<char>)
    requires
        forall|i: int|
            0 <= i < s.len() ==> #[trigger] s[i] != TRADE_MARK && is_key_char(lowercase_first(s[i])),
    ensures
        type_actions(s).len() == 2 * s.len(),
        forall|i: int|
            0 <= i < s.len() ==> (#[trigger] type_actions(s)[2 * i] matches KeyAction::Press(k) && {
                &&& type_actions(s)[2 * i + 1] == KeyAction::Release(k)
                &&& key_char(linux_code(k)) == lowercase_first(s[i])
            }),
    decreases s.len(),
{
    if s.len() > 0 {
        let init = s.drop_last();
        assert forall|i: int| 0 <= i < init.len() implies #[trigger] init[i] != TRADE_MARK
            && is_key_char(lowercase_first(init[i])) by {
            assert(init[i] == s[i]);
        }
        lemma_typing_reads_back(init);
        let c = s.last();
        assert(s[s.len() - 1] == c);
        crate::keymap::lemma_every_key_char_is_typed(lowercase_first(c));
        let k = char_key(lowercase_first(c))->0;
        assert(char_actions(c) == tap(k));
        assert forall|i: int| 0 <= i < s.len() implies (#[trigger] type_actions(s)[2 * i] matches KeyAction::Press(
            k2,
        ) && {
            &&& type_actions(s)[2 * i + 1] == KeyAction::Release(k2)
            &&& key_char(linux_code(k2)) == lowercase_first(s[i])
        }) by {
            if i < s.len() - 1 {
                assert(init[i] == s[i]);
                assert(type_actions(s)[2 * i] == type_actions(init)[2 * i]);
                assert(type_actions(s)[2 * i + 1] == type_actions(init)[2 * i + 1]);
            }
        }
    }
}

/// A replacement erases the alias, syncs, types the expansion and syncs:
/// its first `2 * alias.len()` actions are Backspace taps, the next one and
/// the last one are syncs, and between them stand exactly the actions that
/// type the expansion.
pub proof fn lemma_replacement_layout(alias: Seq<char>, expansion: Seq<char>)
    ensures
        ({
            let r = replacement_actions(alias, expansion);
            let n = 2 * alias.len();
            &&& r.len() == n + type_actions(expansion).len() + 2
            &&& r.subrange(0, n as int) == erase_actions(alias.len())
            &&& r[n as int] == KeyAction::Sync
            &&& r.subrange((n + 1) as int, r.len() - 1) == type_actions(expansion)
            &&& r.last() == KeyAction::Sync
        }),
{
    lemma_erase_taps_backspace(alias.len());
    let r = replacement_actions(alias, expansion);
    let n = 2 * alias.len();
    assert(r.subrange(0, n as int) =~= erase_actions(alias.len()));
    assert(r.subrange((n + 1) as int, r.len() - 1) =~= type_actions(expansion));
}

fn push_tap(actions: &mut Vec<KeyAction>, k: OutKey)
    ensures
        final(actions)@ == old(actions)@ + tap(k),
{
    actions.push(KeyAction::Press(k));
    actions.push(KeyAction::Release(k));
}

/// Appends the actions that type `c`.
fn push_char_actions(actions: &mut Vec<KeyAction>, c: char)
    ensures
        final(actions)@ == old(actions)@ + char_actions(c),
{
    if c == TRADE_MARK {
        actions.push(KeyAction::Press(OutKey::LeftControl));
        actions.push(KeyAction::Press(OutKey::LeftShift));
        actions.push(KeyAction::Press(OutKey::U));
        actions.push(KeyAction::Release(OutKey::U));
        actions.push(KeyAction::Release(OutKey::LeftShift));
        actions.push(KeyAction::Release(OutKey::LeftControl));
        push_tap(actions, OutKey::Digit2);
        push_tap(actions, OutKey::Digit1);
        push_tap(actions, OutKey::Digit2);
        push_tap(actions, OutKey::Digit2);
        push_tap(actions, OutKey::Enter);
        assert(final(actions)@ =~= old(actions)@ + trade_mark_actions());
    } else {
        match char_to_key(c) {
            Some(k) => push_tap(actions, k),
            None => {
                assert(old(actions)@ + char_actions(c) =~= old(actions)@);
            },
        }
    }
}

/// The keys that replace the typed `alias` by `expansion`.
pub fn replace_actions(alias: &str, expansion: &str) -> (actions: Vec<KeyAction>)
    ensures
        actions@ == replacement_actions(alias@, expansion@),
{
    let mut actions: Vec<KeyAction> = Vec::new();
    let a = chars_of(alias);
    let mut i: usize = 0;
    while i < a.len()
        invariant
            i <= a.len(),
            actions@ == erase_actions(i as nat),
        decreases a.len() - i,
    {
        push_tap(&mut actions, OutKey::BackSpace);
        i = i + 1;
    }
    actions.push(KeyAction::Sync);
    let ghost erased = actions@;
    let e = chars_of(expansion);
    let mut j: usize = 0;
    while j < e.len()
        invariant
            e@ == expansion@,
            j <= e.len(),
            actions@ == erased + type_actions(e@.take(j as int)),
        decreases e.len() - j,
    {
        assert(e@.take(j + 1).drop_last() =~= e@.take(j as int));
        push_char_actions(&mut actions, e[j]);
        assert(actions@ =~= erased + type_actions(e@.take(j + 1)));
        j = j + 1;
    }
    assert(e@.take(e.len() as int) =~= e@);
    actions.push(KeyAction::Sync);
    assert(actions@ =~= replacement_actions(alias@, expansion@));
    actions
}

/// Whether shortcut `i` of `shortcuts` fires on the log content `w`: its
/// alias ends the log.
pub open spec fn fires(w: Seq<char>, shortcuts: Seq<Shortcut>, i: int) -> bool {
    shortcuts[i].alias@.is_suffix_of(w)
}

/// The shortcut that fires on `w`: the first one whose alias ends `w`.
pub open spec fn is_first_fired(w: Seq<char>, shortcuts: Seq<Shortcut>, i: int) -> bool {
    &&& 0 <= i < shortcuts.len()
    &&& fires(w, shortcuts, i)
    &&& forall|j: int| 0 <= j < i ==> !fires(w, shortcuts, j)
}

/// No shortcut fires on `w`.
pub open spec fn none_fired(w: Seq<char>, shortcuts: Seq<Shortcut>) -> bool {
    forall|j: int| 0 <= j < shortcuts.len() ==> !fires(w, shortcuts, j)
}

/// The first shortcut whose alias ends the log, if any.
pub fn find_shortcut<const N: usize>(buffer: &[char; N], head: usize, shortcuts: &Vec<Shortcut>) -> (r:
    Option<usize>)
    requires
        N > 0,
        head + (N - 1) <= usize::MAX,
    ensures
        r matches Some(i) ==> is_first_fired(window(buffer@, head as int), shortcuts@, i as int),
        r is None ==> none_fired(window(buffer@, head as int), shortcuts@),
{
    let ghost w = window(buffer@, head as int);
    let mut i: usize = 0;
    while i < shortcuts.len()
        invariant
            N > 0,
            head + (N - 1) <= usize::MAX,
            w == window(buffer@, head as int),
            i <= shortcuts.len(),
            forall|j: int| 0 <= j < i ==> !fires(w, shortcuts@, j),
        decreases shortcuts.len() - i,
    {
        if buffer_matches(*buffer, head, shortcuts[i].alias.clone()) {
            return Some(i);
        }
        i = i + 1;
    }
    None
}

/// A shortcut made of two string constants.
fn shortcut(alias: &str, expansion: &str) -> (s: Shortcut)
    ensures
        s.alias@ == alias@,
        s.expansion@ == expansion@,
{
    Shortcut { alias: String::from_str(alias), expansion: String::from_str(expansion) }
}

/// The shortcuts that the expander knows, in the order in which they are
/// tried.  None of the aliases is longer than four characters, so a log of
/// four keystrokes is enough to recognise each of them.
pub fn default_shortcuts() -> (s: Vec<Shortcut>)
    ensures
        s@.len() == 4,
        s@[0].alias@ == "palt"@,
        s@[0].expansion@ == "Please generate an alt-text description for this image."@,
        s@[1].alias@ == "tm "@,
        s@[1].expansion@ == "\u{2122}"@,
        s@[2].alias@ == "foo"@,
        s@[2].expansion@ == "bar"@,
        s@[3].alias@ == "omw"@,
        s@[3].expansion@ == "On my way!"@,
        forall|i: int| 0 <= i < s@.len() ==> #[trigger] s@[i].alias@.len() <= 4,
{
    let mut s: Vec<Shortcut> = Vec::new();
    s.push(shortcut("palt", "Please generate an alt-text description for this image."));
    s.push(shortcut("tm ", "\u{2122}"));
    s.push(shortcut("foo", "bar"));
    s.push(shortcut("omw", "On my way!"));
    proof {
        reveal_strlit("palt");
        reveal_strlit("tm ");
        reveal_strlit("foo");
        reveal_strlit("omw");
    }
    s
}

/// What the expander does about one key event.
pub struct Response {
    /// The shortcut that fired, if any.
    pub fired: Option<usize>,
    /// The keys that the virtual keyboard is to press, in order.
    pub actions: Vec<KeyAction>,
}

/// Handles one event of key `code` with value `value` (0: released).  A
/// released key is logged as the character it types; then the first
/// shortcut whose alias ends the log fires, and the answer is the keys that
/// replace its alias by its expansion.  Any other event leaves the log as it
/// was and asks for nothing.
pub fn on_key_event<const N: usize>(
    buffer: &mut [char; N],
    head: &mut usize,
    code: u16,
    value: i32,
    shortcuts: &Vec<Shortcut>,
) -> (r: Response)
    requires
        *old(head) < N,
        N <= isize::MAX,
    ensures
        *final(head) < N,
        value != 0 ==> {
            &&& final(buffer)@ == old(buffer)@
            &&& *final(head) == *old(head)
            &&& r.fired is None
            &&& r.actions@.len() == 0
        },
        value == 0 ==> {
            &&& final(buffer)@ == old(buffer)@.update(*old(head) as int, key_char(code))
            &&& *final(head) == (*old(head) + 1) % (N as int)
            &&& match r.fired {
                Some(i) => {
                    &&& is_first_fired(window(final(buffer)@, *final(head) as int), shortcuts@, i as int)
                    &&& r.actions@ == replacement_actions(
                        shortcuts@[i as int].alias@,
                        shortcuts@[i as int].expansion@,
                    )
                },
                None => {
                    &&& none_fired(window(final(buffer)@, *final(head) as int), shortcuts@)
                    &&& r.actions@.len() == 0
                },
            }
        },
{
    if value != 0 {
        return Response { fired: None, actions: Vec::new() };
    }
    let c = match key_to_char(code) {
        Some(c) => c,
        None => '\0',
    };
    log_keystroke(c, buffer, head);
    match find_shortcut(buffer, *head, shortcuts) {
        Some(i) => {
            let actions = replace_actions(
                shortcuts[i].alias.as_str(),
                shortcuts[i].expansion.as_str(),
            );
            Response { fired: Some(i), actions }
        },
        None => Response { fired: None, actions: Vec::new() },
    }
}

} // verus!
