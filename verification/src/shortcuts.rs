//! Global shortcut records: the built-in defaults and the rules for
//! re-binding a shortcut's key combination.
use vstd::prelude::*;

verus! {

/// A configurable global shortcut (also shown as a toolbar plugin button).
pub struct Shortcut {
    pub id: String,
    pub label: String,
    /// Key combination, e.g. "Alt+A".
    pub shortcut: String,
    pub icon: String,
    pub color: String,
    pub enabled: bool,
}

/// The abstract content of a [`Shortcut`].
pub struct ShortcutView {
    pub id: Seq<char>,
    pub label: Seq<char>,
    pub shortcut: Seq<char>,
    pub icon: Seq<char>,
    pub color: Seq<char>,
    pub enabled: bool,
}

impl View for Shortcut {
    type V = ShortcutView;

    open spec fn view(&self) -> ShortcutView {
        ShortcutView {
            id: self.id@,
            label: self.label@,
            shortcut: self.shortcut@,
            icon: self.icon@,
            color: self.color@,
            enabled: self.enabled,
        }
    }
}

impl Clone for Shortcut {
    fn clone(&self) -> (r: Self)
        ensures
            r == *self,
    {
        Shortcut {
            id: self.id.clone(),
            label: self.label.clone(),
            shortcut: self.shortcut.clone(),
            icon: self.icon.clone(),
            color: self.color.clone(),
            enabled: self.enabled,
        }
    }
}

pub open spec fn shortcut_views(s: Seq<Shortcut>) -> Seq<ShortcutView> {
    s.map_values(|x: Shortcut| x@)
}

/// The two shortcuts that ship with the application.
pub open spec fn default_shortcut_views() -> Seq<ShortcutView> {
    seq![
        ShortcutView {
            id: "capture"@,
            label: "Main Capture"@,
            shortcut: "Alt+A"@,
            icon: "\u{E11A}"@,
            color: "#3b82f6"@,
            enabled: true,
        },
        ShortcutView {
            id: "ocr"@,
            label: "OCR Selection"@,
            shortcut: "Alt+S"@,
            icon: "\u{E11B}"@,
            color: "#10b981"@,
            enabled: true,
        },
    ]
}

/// The built-in shortcuts: main capture on Alt+A and OCR on Alt+S.
pub fn get_default_shortcuts() -> (r: Vec<Shortcut>)
    ensures
        shortcut_views(r@) == default_shortcut_views(),
{
    let capture = Shortcut {
        id: String::from_str("capture"),
        label: String::from_str("Main Capture"),
        shortcut: String::from_str("Alt+A"),
        icon: String::from_str("\u{E11A}"),
        color: String::from_str("#3b82f6"),
        enabled: true,
    };
    let ocr = Shortcut {
        id: String::from_str("ocr"),
        label: String::from_str("OCR Selection"),
        shortcut: String::from_str("Alt+S"),
        icon: String::from_str("\u{E11B}"),
        color: String::from_str("#10b981"),
        enabled: true,
    };
    let mut r: Vec<Shortcut> = Vec::new();
    r.push(capture);
    r.push(ocr);
    assert(shortcut_views(r@) =~= default_shortcut_views());
    r
}

/// The shortcuts the toolbar offers as plugin buttons.
pub fn load_shortcuts() -> (r: Vec<Shortcut>)
    ensures
        shortcut_views(r@) == default_shortcut_views(),
{
    get_default_shortcuts()
}


/// Label of the first shortcut, other than `id`, already bound to `keys`.
pub open spec fn conflict_label(s: Seq<ShortcutView>, id: Seq<char>, keys: Seq<char>) -> Option<
    Seq<char>,
>
    decreases s.len(),
{
    if s.len() == 0 {
        None
    } else if s[0].id != id && s[0].shortcut == keys {
        Some(s[0].label)
    } else {
        conflict_label(s.drop_first(), id, keys)
    }
}

/// Position of the first shortcut whose id is `id`.
pub open spec fn index_of_id(s: Seq<ShortcutView>, id: Seq<char>) -> Option<int>
    decreases s.len(),
{
    if s.len() == 0 {
        None
    } else if s[0].id == id {
        Some(0)
    } else {
        match index_of_id(s.drop_first(), id) {
            Some(i) => Some(i + 1),
            None => None,
        }
    }
}

/// The message with which a re-binding is refused, if it is.
pub open spec fn update_rejection(s: Seq<ShortcutView>, id: Seq<char>, keys: Seq<char>) -> Option<
    Seq<char>,
> {
    if keys.len() == 0 {
        Some("Shortcut cannot be empty"@)
    } else {
        match conflict_label(s, id, keys) {
            Some(label) => Some("Conflict with "@ + label),
            None => None,
        }
    }
}

proof fn lemma_index_of_id_bounds(s: Seq<ShortcutView>, id: Seq<char>)
    ensures
        index_of_id(s, id) matches Some(i) ==> 0 <= i < s.len() && s[i].id == id && forall|
            j: int,
        | 0 <= j < i ==> s[j].id != id,
        index_of_id(s, id) is None ==> forall|j: int| 0 <= j < s.len() ==> s[j].id != id,
    decreases s.len(),
{
    if s.len() > 0 {
        lemma_index_of_id_bounds(s.drop_first(), id);
        if s[0].id != id {
            assert forall|j: int| 1 <= j < s.len() implies s[j] == s.drop_first()[j - 1] by {}
        }
    }
}

/// Decides whether `id` may be re-bound to `new_keys`: the combination must
/// not be empty and must not already belong to another shortcut.
pub fn check_shortcut_update(shortcuts: &Vec<Shortcut>, id: &str, new_keys: &str) -> (r: Result<
    (),
    String,
>)
    ensures
        match update_rejection(shortcut_views(shortcuts@), id@, new_keys@) {
            Some(msg) => r matches Err(e) && e@ == msg,
            None => r is Ok,
        },
{
    if new_keys.is_empty() {
        return Err(String::from_str("Shortcut cannot be empty"));
    }
    let id_s = String::from_str(id);
    let keys_s = String::from_str(new_keys);
    let ghost sv = shortcut_views(shortcuts@);
    let mut i: usize = 0;
    assert(sv.skip(0) =~= sv);
    while i < shortcuts.len()
        invariant
            0 <= i <= shortcuts.len(),
            sv == shortcut_views(shortcuts@),
            id_s@ == id@,
            keys_s@ == new_keys@,
            new_keys@.len() != 0,
            conflict_label(sv, id@, new_keys@) == conflict_label(sv.skip(i as int), id@, new_keys@),
        decreases shortcuts.len() - i,
    {
        assert(sv.skip(i as int).drop_first() =~= sv.skip(i + 1));
        assert(sv.skip(i as int)[0] == sv[i as int]);
        assert(sv[i as int] == shortcuts@[i as int]@);
        if !(shortcuts[i].id == id_s) && shortcuts[i].shortcut == keys_s {
            let msg = String::from_str("Conflict with ").concat(shortcuts[i].label.as_str());
            return Err(msg);
        }
        i = i + 1;
    }
    assert(sv.skip(i as int).len() == 0);
    Ok(())
}

/// Re-binds the first shortcut whose id is `id` to `new_keys`; returns
/// whether such a shortcut exists (the list is unchanged when it does not).
pub fn assign_shortcut_keys(shortcuts: &mut Vec<Shortcut>, id: &str, new_keys: &str) -> (found:
    bool)
    ensures
        found == (index_of_id(shortcut_views(old(shortcuts)@), id@) is Some),
        match index_of_id(shortcut_views(old(shortcuts)@), id@) {
            Some(k) => final(shortcuts)@.len() == old(shortcuts)@.len() && (forall|j: int|
                0 <= j < old(shortcuts)@.len() && j != k ==> final(shortcuts)@[j] == old(
                    shortcuts,
                )@[j]) && final(shortcuts)@[k]@ == (ShortcutView {
                shortcut: new_keys@,
                ..old(shortcuts)@[k]@
            }),
            None => final(shortcuts)@ == old(shortcuts)@,
        },
{
    let id_s = String::from_str(id);
    let ghost sv = shortcut_views(shortcuts@);
    proof {
        lemma_index_of_id_bounds(sv, id@);
    }
    let mut i: usize = 0;
    while i < shortcuts.len()
        invariant
            0 <= i <= shortcuts.len(),
            shortcuts@ == old(shortcuts)@,
            sv == shortcut_views(shortcuts@),
            id_s@ == id@,
            forall|j: int| 0 <= j < i ==> sv[j].id != id@,
            index_of_id(sv, id@) matches Some(k) ==> 0 <= k < sv.len() && sv[k].id == id@ && (
            forall|j: int| 0 <= j < k ==> sv[j].id != id@),
            index_of_id(sv, id@) is None ==> forall|j: int| 0 <= j < sv.len() ==> sv[j].id != id@,
        decreases shortcuts.len() - i,
    {
        assert(sv[i as int] == shortcuts@[i as int]@);
        if shortcuts[i].id == id_s {
            proof {
                match index_of_id(sv, id@) {
                    Some(k) => {
                        if k < i {
                            assert(sv[k].id != id@);
                        } else if k > i {
                            assert(sv[i as int].id != id@);
                        }
                    },
                    None => {
                        assert(sv[i as int].id != id@);
                    },
                }
            }
            let mut s = shortcuts[i].clone();
            s.shortcut = String::from_str(new_keys);
            shortcuts.set(i, s);
            return true;
        }
        i = i + 1;
    }
    false
}

/// Re-binds the shortcut `id` to `new_keys` after [`check_shortcut_update`]
/// accepted the change; an error when no shortcut has that id.
pub fn rebind_shortcut(shortcuts: &mut Vec<Shortcut>, id: &str, new_keys: &str) -> (r: Result<(), String>)
    ensures
        match index_of_id(shortcut_views(old(shortcuts)@), id@) {
            Some(k) => {
                &&& r is Ok
                &&& final(shortcuts)@.len() == old(shortcuts)@.len()
                &&& forall|j: int|
                    0 <= j < old(shortcuts)@.len() && j != k ==> final(shortcuts)@[j] == old(
                        shortcuts,
                    )@[j]
                &&& final(shortcuts)@[k]@ == (ShortcutView {
                    shortcut: new_keys@,
                    ..old(shortcuts)@[k]@
                })
            },
            None => {
                &&& r matches Err(e) && e@ == "Shortcut ID not found"@
                &&& final(shortcuts)@ == old(shortcuts)@
            },
        },
{
    if assign_shortcut_keys(shortcuts, id, new_keys) {
        Ok(())
    } else {
        Err(String::from_str("Shortcut ID not found"))
    }
}

proof fn lemma_no_conflict_label(s: Seq<ShortcutView>, id: Seq<char>, keys: Seq<char>)
    requires
        conflict_label(s, id, keys) is None,
    ensures
        forall|j: int| 0 <= j < s.len() && s[j].id != id ==> s[j].shortcut != keys,
    decreases s.len(),
{
    if s.len() > 0 {
        lemma_no_conflict_label(s.drop_first(), id, keys);
        assert forall|j: int| 0 <= j < s.len() && s[j].id != id implies s[j].shortcut != keys by {
            if j > 0 {
                assert(s[j] == s.drop_first()[j - 1]);
            }
        }
    }
}

/// A re-binding that [`check_shortcut_update`] accepted and
/// [`rebind_shortcut`] carried out leaves no shortcut with another id on
/// the same key combination.
pub proof fn lemma_accepted_rebind_is_conflict_free(
    before: Seq<Shortcut>,
    after: Seq<Shortcut>,
    id: Seq<char>,
    keys: Seq<char>,
)
    requires
        update_rejection(shortcut_views(before), id, keys) is None,
        index_of_id(shortcut_views(before), id) matches Some(k) && {
            &&& after.len() == before.len()
            &&& forall|j: int| 0 <= j < before.len() && j != k ==> after[j] == before[j]
            &&& after[k]@ == (ShortcutView { shortcut: keys, ..before[k]@ })
        },
    ensures
        forall|j: int| 0 <= j < after.len() && after[j].id@ != id ==> after[j].shortcut@ != keys,
{
    let sv = shortcut_views(before);
    lemma_no_conflict_label(sv, id, keys);
    lemma_index_of_id_bounds(sv, id);
    let k = index_of_id(sv, id)->0;
    assert forall|j: int| 0 <= j < after.len() && after[j].id@ != id implies after[j].shortcut@
        != keys by {
        if j != k {
            assert(sv[j] == before[j]@);
        }
    }
}

/// A global key combination of the `global-hotkey` crate.
#[verifier::external_type_specification]
#[verifier::external_body]
pub struct ExHotKey(global_hotkey::hotkey::HotKey);

/// Whether `HotKey::from_str` accepts the text.
pub uninterp spec fn parses_as_hotkey(text: Seq<char>) -> bool;

/// `text.parse::<HotKey>()`. Claimed: it succeeds exactly when
/// `parses_as_hotkey` holds of the text; the key combination it yields is
/// not described.
#[verifier::external_body]
pub(crate) fn parse_hotkey(text: &str) -> (r: Option<global_hotkey::hotkey::HotKey>)
    ensures
        r is Some == parses_as_hotkey(text@),
{
    text.parse::<global_hotkey::hotkey::HotKey>().ok()
}

/// The positions, in order, among the first `n` shortcuts, of those whose
/// key combination parses (and, when `enabled_only`, that are enabled).
pub open spec fn hotkey_positions(s: Seq<ShortcutView>, enabled_only: bool, n: int) -> Seq<int>
    decreases n,
{
    if n <= 0 {
        Seq::empty()
    } else {
        let prev = hotkey_positions(s, enabled_only, n - 1);
        if (!enabled_only || s[n - 1].enabled) && parses_as_hotkey(s[n - 1].shortcut) {
            prev.push(n - 1)
        } else {
            prev
        }
    }
}

fn collect_hotkeys(shortcuts: &Vec<Shortcut>, enabled_only: bool) -> (r: Vec<(usize, global_hotkey::hotkey::HotKey)>)
    ensures
        r@.len() == hotkey_positions(shortcut_views(shortcuts@), enabled_only, shortcuts@.len() as int).len(),
        forall|k: int|
            0 <= k < r@.len() ==> #[trigger] r@[k].0 as int == hotkey_positions(
                shortcut_views(shortcuts@),
                enabled_only,
                shortcuts@.len() as int,
            )[k],
{
    let ghost sv = shortcut_views(shortcuts@);
    let mut r: Vec<(usize, global_hotkey::hotkey::HotKey)> = Vec::new();
    let mut i: usize = 0;
    while i < shortcuts.len()
        invariant
            sv == shortcut_views(shortcuts@),
            i <= shortcuts@.len(),
            r@.len() == hotkey_positions(sv, enabled_only, i as int).len(),
            forall|k: int|
                0 <= k < r@.len() ==> #[trigger] r@[k].0 as int == hotkey_positions(
                    sv,
                    enabled_only,
                    i as int,
                )[k],
        decreases shortcuts@.len() - i,
    {
        assert(sv[i as int] == shortcuts@[i as int]@);
        if !enabled_only || shortcuts[i].enabled {
            match parse_hotkey(shortcuts[i].shortcut.as_str()) {
                Some(h) => {
                    r.push((i, h));
                },
                None => {},
            }
        }
        i = i + 1;
    }
    r
}

/// The key combinations to register, with the positions of their
/// shortcuts: those of enabled shortcuts whose combination parses.
pub fn hotkeys_to_register(shortcuts: &Vec<Shortcut>) -> (r: Vec<(usize, global_hotkey::hotkey::HotKey)>)
    ensures
        r@.len() == hotkey_positions(shortcut_views(shortcuts@), true, shortcuts@.len() as int).len(),
        forall|k: int|
            0 <= k < r@.len() ==> #[trigger] r@[k].0 as int == hotkey_positions(
                shortcut_views(shortcuts@),
                true,
                shortcuts@.len() as int,
            )[k],
{
    collect_hotkeys(shortcuts, true)
}

/// The key combinations to unregister, with the positions of their
/// shortcuts: those of all shortcuts whose combination parses.
pub fn hotkeys_to_unregister(shortcuts: &Vec<Shortcut>) -> (r: Vec<(usize, global_hotkey::hotkey::HotKey)>)
    ensures
        r@.len() == hotkey_positions(shortcut_views(shortcuts@), false, shortcuts@.len() as int).len(),
        forall|k: int|
            0 <= k < r@.len() ==> #[trigger] r@[k].0 as int == hotkey_positions(
                shortcut_views(shortcuts@),
                false,
                shortcuts@.len() as int,
            )[k],
{
    collect_hotkeys(shortcuts, false)
}

/// The entry recorded when a shortcut's key combination could not be
/// registered: `<label> (<keys>)`.
pub fn registration_error(s: &Shortcut) -> (r: String)
    ensures
        r@ == s.label@ + " ("@ + s.shortcut@ + ")"@,
{
    let mut r = s.label.clone();
    r.append(" (");
    r.append(s.shortcut.as_str());
    r.append(")");
    r
}

} // verus!
