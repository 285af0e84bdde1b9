//! Vim-style macros: `q{register}` records the keys typed until `q`, `@{register}`
//! plays them back and `@@` repeats the last one.
use crate::digits;
use crate::keymap::{KeyCode, KeyInput};
use crate::text::{concat, owned, push_char};
use vstd::prelude::*;

verus! {

/// Errors of macro recording and playback.
#[derive(Debug, Clone, PartialEq, Eq)]
pub enum MacroError {
    /// Invalid register. Must be a-z, A-Z, or 0-9
    InvalidRegister(char),
    /// No macro recorded in the register
    MacroNotFound(char),
    /// Cannot record macro while already recording
    AlreadyRecording,
    /// No macro currently being recorded
    NotRecording,
    /// Macro playback failed
    PlaybackFailed(String),
}

impl MacroError {
    /// The error's message.
    pub open spec fn spec_message(&self) -> Seq<char> {
        match self {
            MacroError::InvalidRegister(c) => "Invalid register '"@ + seq![*c] + "'. Must be a-z, A-Z, or 0-9"@,
            MacroError::MacroNotFound(c) => "No macro recorded in register '"@ + seq![*c] + "'"@,
            MacroError::AlreadyRecording => "Cannot record macro while already recording"@,
            MacroError::NotRecording => "No macro currently being recorded"@,
            MacroError::PlaybackFailed(s) => "Macro playback failed: "@ + s@,
        }
    }

    /// The error's message (what its `Display` shows).
    pub fn message(&self) -> (s: String)
        ensures
            s@ == self.spec_message(),
    {
        match self {
            MacroError::InvalidRegister(c) => {
                let mut s = crate::text::owned("Invalid register '");
                crate::text::push_char(&mut s, *c);
                crate::text::concat(s.as_str(), "'. Must be a-z, A-Z, or 0-9")
            },
            MacroError::MacroNotFound(c) => {
                let mut s = crate::text::owned("No macro recorded in register '");
                crate::text::push_char(&mut s, *c);
                crate::text::concat(s.as_str(), "'")
            },
            MacroError::AlreadyRecording => crate::text::owned("Cannot record macro while already recording"),
            MacroError::NotRecording => crate::text::owned("No macro currently being recorded"),
            MacroError::PlaybackFailed(p) => crate::text::concat("Macro playback failed: ", p.as_str()),
        }
    }
}


/// A key as a macro records it: the key and its modifiers.
#[derive(Debug, Clone, Copy, PartialEq, Eq, Structural)]
pub struct MacroKeyEvent {
    pub key_code: KeyCode,
    pub ctrl: bool,
    pub alt: bool,
    pub shift: bool,
}

impl MacroKeyEvent {
    /// The recorded form of a key press.
    pub fn from_key(key: KeyInput) -> (e: Self)
        ensures
            e == Self::spec_from(key),
    {
        MacroKeyEvent { key_code: key.code, ctrl: key.ctrl, alt: key.alt, shift: key.shift }
    }

    pub open spec fn spec_from(key: KeyInput) -> Self {
        MacroKeyEvent { key_code: key.code, ctrl: key.ctrl, alt: key.alt, shift: key.shift }
    }

    /// The key press a recorded key stands for.
    pub fn to_key(&self) -> (k: KeyInput)
        ensures
            k == Self::spec_to(*self),
    {
        KeyInput { code: self.key_code, ctrl: self.ctrl, alt: self.alt, shift: self.shift }
    }

    pub open spec fn spec_to(e: Self) -> KeyInput {
        KeyInput { code: e.key_code, ctrl: e.ctrl, alt: e.alt, shift: e.shift }
    }
}

/// The `q` key with no modifier, which stops recording and is never recorded.
pub open spec fn is_stop_key(key: KeyInput) -> bool {
    key.code == KeyCode::Char('q') && !key.ctrl && !key.alt && !key.shift
}

/// A recorded macro containing a sequence of key events
#[derive(Debug, Clone)]
pub struct Macro {
    pub name: char,
    pub events: Vec<MacroKeyEvent>,
    pub description: String,
}

impl Macro {
    pub fn new(name: char) -> (m: Self)
        ensures
            m.name == name,
            m.events@.len() == 0,
            m.description@ == "Macro "@ + seq![name],
    {
        let mut description = owned("Macro ");
        push_char(&mut description, name);
        Self { name, events: Vec::new(), description }
    }

    /// Records a key, unless it is the `q` that stops recording.
    pub fn add_event(&mut self, event: KeyInput)
        ensures
            final(self).name == old(self).name,
            final(self).description == old(self).description,
            final(self).events@ == if is_stop_key(event) {
                old(self).events@
            } else {
                old(self).events@.push(MacroKeyEvent::spec_from(event))
            },
    {
        if event.code == KeyCode::Char('q') && !event.ctrl && !event.alt && !event.shift {
            return;
        }
        self.events.push(MacroKeyEvent::from_key(event));
    }

    pub fn is_empty(&self) -> (b: bool)
        ensures
            b == (self.events@.len() == 0),
    {
        self.events.len() == 0
    }

    pub fn len(&self) -> (n: usize)
        ensures
            n == self.events@.len(),
    {
        self.events.len()
    }
}

/// The registers that hold macros: `a`-`z`, `A`-`Z` and `0`-`9`.
pub open spec fn valid_register(c: char) -> bool {
    ('a' <= c && c <= 'z') || ('A' <= c && c <= 'Z') || ('0' <= c && c <= '9')
}

/// The macro stored in register `r`, if any.
pub open spec fn stored_in(v: Seq<Macro>, r: char) -> Option<Macro>
    decreases v.len(),
{
    if v.len() == 0 {
        None
    } else if v.last().name == r {
        Some(v.last())
    } else {
        stored_in(v.drop_last(), r)
    }
}

/// Main macro recording and playback system
#[derive(Debug)]
pub struct MacroRecorder {
    /// Currently recording macro
    pub recording: Option<Macro>,
    /// Stored macros, one per register (a-z, A-Z, 0-9)
    pub macros: Vec<Macro>,
    /// Last played macro register for @@ command
    pub last_played: Option<char>,
    /// Whether we're currently playing back a macro (prevents infinite loops)
    pub playing: bool,
}

impl MacroRecorder {
    /// No register holds two macros, and every register in use is a valid one.
    pub open spec fn well_formed(&self) -> bool {
        &&& forall|i: int, j: int| 0 <= i < j < self.macros@.len() ==> #[trigger] self.macros@[i].name != #[trigger] self.macros@[j].name
        &&& forall|i: int| 0 <= i < self.macros@.len() ==> valid_register(#[trigger] self.macros@[i].name)
        &&& self.last_played matches Some(r) ==> valid_register(r)
        &&& self.recording matches Some(m) ==> valid_register(m.name)
    }

    /// The macro in register `r`.
    pub open spec fn stored(&self, r: char) -> Option<Macro> {
        stored_in(self.macros@, r)
    }

    /// Create a new macro recorder
    pub fn new() -> (m: Self)
        ensures
            m.well_formed(),
            m.recording is None,
            forall|r: char| #[trigger] m.stored(r) is None,
            m.last_played is None,
            !m.playing,
    {
        Self { recording: None, macros: Vec::new(), last_played: None, playing: false }
    }

    /// Check if a register name is valid (a-z, A-Z, 0-9)
    fn is_valid_register(register: char) -> (b: bool)
        ensures
            b == valid_register(register),
    {
        ('a' <= register && register <= 'z') || ('A' <= register && register <= 'Z') || ('0' <= register && register <= '9')
    }

    /// Start recording a macro to the specified register (ignored while a macro plays)
    pub fn start_recording(&mut self, register: char) -> (r: Result<(), MacroError>)
        requires
            old(self).well_formed(),
        ensures
            final(self).well_formed(),
            final(self).macros == old(self).macros,
            final(self).last_played == old(self).last_played,
            final(self).playing == old(self).playing,
            !valid_register(register) ==> r == Err::<(), MacroError>(MacroError::InvalidRegister(register))
                && final(self).recording == old(self).recording,
            valid_register(register) && old(self).recording is Some ==> r == Err::<(), MacroError>(
                MacroError::AlreadyRecording,
            ) && final(self).recording == old(self).recording,
            valid_register(register) && old(self).recording is None && old(self).playing ==> r is Ok
                && final(self).recording is None,
            valid_register(register) && old(self).recording is None && !old(self).playing ==> r is Ok && (
            final(self).recording matches Some(m) && m.name == register && m.events@.len() == 0),
    {
        if !Self::is_valid_register(register) {
            return Err(MacroError::InvalidRegister(register));
        }
        if self.recording.is_some() {
            return Err(MacroError::AlreadyRecording);
        }
        if self.playing {
            return Ok(());
        }
        self.recording = Some(Macro::new(register));
        Ok(())
    }

    /// Where register `r` is stored, if it is.
    fn position_of(&self, register: char) -> (r: Option<usize>)
        ensures
            match r {
                Some(i) => i < self.macros@.len() && self.macros@[i as int].name == register,
                None => forall|j: int| 0 <= j < self.macros@.len() ==> #[trigger] self.macros@[j].name != register,
            },
    {
        let mut i: usize = 0;
        while i < self.macros.len()
            invariant
                i <= self.macros@.len(),
                forall|j: int| 0 <= j < i ==> #[trigger] self.macros@[j].name != register,
            decreases self.macros@.len() - i,
        {
            if self.macros[i].name == register {
                return Some(i);
            }
            i = i + 1;
        }
        None
    }

    /// Stop recording the current macro and store it (even empty) in its register
    pub fn stop_recording(&mut self) -> (r: Result<char, MacroError>)
        requires
            old(self).well_formed(),
        ensures
            final(self).well_formed(),
            final(self).last_played == old(self).last_played,
            final(self).playing == old(self).playing,
            final(self).recording is None,
            match old(self).recording {
                None => r == Err::<char, MacroError>(MacroError::NotRecording) && final(self).macros == old(self).macros,
                Some(m) => r == Ok::<char, MacroError>(m.name) && final(self).stored(m.name) == Some(m) && forall|q: char|
                    q != m.name ==> #[trigger] final(self).stored(q) == old(self).stored(q),
            },
    {
        let recorded = match self.recording.take() {
            Some(m) => m,
            None => return Err(MacroError::NotRecording),
        };
        let register = recorded.name;
        let ghost old_macros = self.macros@;
        let ghost m = recorded;
        match self.position_of(register) {
            Some(i) => {
                self.macros.set(i, recorded);
                proof {
                    assert(self.macros@ == old_macros.update(i as int, m));
                    lemma_update_found(old_macros, i as int, m);
                    assert forall|q: char| q != register implies #[trigger] stored_in(self.macros@, q) == stored_in(old_macros, q) by {
                        lemma_update_other(old_macros, i as int, m, q);
                    }
                }
            },
            None => {
                self.macros.push(recorded);
                proof {
                    assert(self.macros@.drop_last() =~= old_macros);
                }
            },
        }
        Ok(register)
    }

    /// Add a key event to the currently recording macro
    pub fn record_event(&mut self, event: KeyInput)
        requires
            old(self).well_formed(),
        ensures
            final(self).well_formed(),
            final(self).macros == old(self).macros,
            final(self).last_played == old(self).last_played,
            final(self).playing == old(self).playing,
            match old(self).recording {
                None => final(self).recording is None,
                Some(m) => final(self).recording matches Some(n) && n.name == m.name && n.events@ == if is_stop_key(
                    event,
                ) {
                    m.events@
                } else {
                    m.events@.push(MacroKeyEvent::spec_from(event))
                },
            },
    {
        if let Some(mut m) = self.recording.take() {
            m.add_event(event);
            self.recording = Some(m);
        }
    }

    /// Check if currently recording a macro
    pub fn is_recording(&self) -> (b: bool)
        ensures
            b == self.recording is Some,
    {
        self.recording.is_some()
    }

    /// Get the register of the currently recording macro
    pub fn recording_register(&self) -> (r: Option<char>)
        ensures
            r == match self.recording {
                Some(m) => Some(m.name),
                None => None,
            },
    {
        match &self.recording {
            Some(m) => Some(m.name),
            None => None,
        }
    }

    /// Check if a macro exists in the specified register
    pub fn has_macro(&self, register: char) -> (b: bool)
        requires
            self.well_formed(),
        ensures
            b == self.stored(register) is Some,
    {
        let found = self.position_of(register);
        proof {
            lemma_stored_position(self.macros@, register);
        }
        found.is_some()
    }

    /// Get a macro by register
    pub fn get_macro(&self, register: char) -> (r: Option<&Macro>)
        requires
            self.well_formed(),
        ensures
            match r {
                Some(m) => self.stored(register) == Some(*m),
                None => self.stored(register) is None,
            },
    {
        proof {
            lemma_stored_position(self.macros@, register);
        }
        match self.position_of(register) {
            Some(i) => Some(&self.macros[i]),
            None => None,
        }
    }

    /// Play back a macro from the specified register: its keys, with playing marked
    /// until `finish_playback` (a macro that plays while another plays gives no keys).
    pub fn play_macro(&mut self, register: char) -> (r: Result<Vec<KeyInput>, MacroError>)
        requires
            old(self).well_formed(),
        ensures
            final(self).well_formed(),
            final(self).macros == old(self).macros,
            final(self).recording == old(self).recording,
            !valid_register(register) ==> (r matches Err(e) && e == MacroError::InvalidRegister(register))
                && *final(self) == *old(self),
            valid_register(register) && old(self).stored(register) is None ==> (r matches Err(e) && e
                == MacroError::MacroNotFound(register)) && *final(self) == *old(self),
            valid_register(register) && old(self).stored(register) is Some && old(self).playing ==> (r matches Ok(v)
                && v@.len() == 0) && *final(self) == *old(self),
            valid_register(register) && old(self).stored(register) is Some && !old(self).playing ==> (r matches Ok(v)
                && v@ == played_keys(old(self).stored(register)->0.events@))
                && final(self).playing && final(self).last_played == Some(register),
    {
        if !Self::is_valid_register(register) {
            return Err(MacroError::InvalidRegister(register));
        }
        proof {
            lemma_stored_position(self.macros@, register);
        }
        let i = match self.position_of(register) {
            Some(i) => i,
            None => return Err(MacroError::MacroNotFound(register)),
        };
        if self.playing {
            return Ok(Vec::new());
        }
        self.playing = true;
        self.last_played = Some(register);
        let events = &self.macros[i].events;
        let mut keys: Vec<KeyInput> = Vec::new();
        let mut k: usize = 0;
        while k < events.len()
            invariant
                k <= events@.len(),
                keys@ == played_keys(events@.take(k as int)),
            decreases events@.len() - k,
        {
            keys.push(events[k].to_key());
            assert(events@.take(k + 1) =~= events@.take(k as int).push(events@[k as int]));
            assert(keys@ =~= played_keys(events@.take(k + 1)));
            k = k + 1;
        }
        assert(events@.take(k as int) =~= events@);
        Ok(keys)
    }

    /// Play back the last executed macro (@@ command)
    pub fn play_last_macro(&mut self) -> (r: Result<Vec<KeyInput>, MacroError>)
        requires
            old(self).well_formed(),
        ensures
            final(self).well_formed(),
            old(self).last_played is None ==> (r matches Err(e) && e matches MacroError::PlaybackFailed(t) && t@ == "No previous macro to repeat"@)
                && *final(self) == *old(self),
            old(self).last_played matches Some(reg) ==> (old(self).stored(reg) is Some && !old(self).playing
                ==> (r matches Ok(v) && v@ == played_keys(old(self).stored(reg)->0.events@)) && final(self).playing),
            old(self).last_played matches Some(reg) ==> (old(self).stored(reg) is Some && old(self).playing
                ==> (r matches Ok(v) && v@.len() == 0) && *final(self) == *old(self)),
            old(self).last_played matches Some(reg) ==> (old(self).stored(reg) is None ==> (r matches Err(e) && e
                == MacroError::MacroNotFound(reg)) && *final(self) == *old(self)),
    {
        match self.last_played {
            None => Err(MacroError::PlaybackFailed(owned("No previous macro to repeat"))),
            Some(register) => {
                proof {
                    assert(valid_register(register) || !valid_register(register));
                }
                self.play_macro(register)
            },
        }
    }

    /// Get the last played macro register
    pub fn get_last_played_register(&self) -> (r: Option<char>)
        ensures
            r == self.last_played,
    {
        self.last_played
    }

    /// Mark macro playback as finished (called after executing events)
    pub fn finish_playback(&mut self)
        requires
            old(self).well_formed(),
        ensures
            final(self).well_formed(),
            !final(self).playing,
            final(self).macros == old(self).macros,
            final(self).recording == old(self).recording,
            final(self).last_played == old(self).last_played,
    {
        self.playing = false;
    }

    /// Get list of all recorded macros, by register
    pub fn list_macros(&self) -> (r: Vec<(char, &Macro)>)
        requires
            self.well_formed(),
        ensures
            r@.len() == self.macros@.len(),
            forall|i: int| 0 <= i < r@.len() ==> #[trigger] self.stored(r@[i].0) == Some(*r@[i].1),
            forall|i: int| 0 <= i < r@.len() - 1 ==> (#[trigger] r@[i].0 as u32) < (r@[i + 1].0 as u32),
    {
        let mut r: Vec<(char, &Macro)> = Vec::new();
        let mut i: usize = 0;
        while i < self.macros.len()
            invariant
                i <= self.macros@.len(),
                self.well_formed(),
                r@.len() == i,
                forall|k: int| 0 <= k < r@.len() ==> exists|j: int| 0 <= j < i && #[trigger] r@[k].1 == &self.macros@[j] && r@[k].0 == self.macros@[j].name,
                forall|k: int| 0 <= k < r@.len() - 1 ==> (#[trigger] r@[k].0 as u32) < (r@[k + 1].0 as u32),
            decreases self.macros@.len() - i,
        {
            let m = &self.macros[i];
            let mut k: usize = r.len();
            while k > 0 && (m.name as u32) < (r[k - 1].0 as u32)
                invariant
                    k <= r@.len(),
                    forall|x: int| k <= x < r@.len() ==> (m.name as u32) < (#[trigger] r@[x].0 as u32),
                decreases k,
            {
                k = k - 1;
            }
            proof {
                if k > 0 {
                    let a = r@[k - 1].0;
                    let j = choose|j: int| 0 <= j < i && #[trigger] r@[k - 1].1 == &self.macros@[j] && r@[k - 1].0 == self.macros@[j].name;
                    assert(self.macros@[j].name != m.name);
                    vstd::utf8::char_u32_cast(a, a as u32);
                    vstd::utf8::char_u32_cast(m.name, m.name as u32);
                }
            }
            let ghost before = r@;
            r.insert(k, (m.name, m));
            proof {
                assert forall|x: int| 0 <= x < r@.len() implies exists|j: int| 0 <= j < i + 1 && #[trigger] r@[x].1 == &self.macros@[j] && r@[x].0 == self.macros@[j].name by {
                    if x < k {
                        assert(r@[x] == before[x]);
                    } else if x == k {
                        assert(r@[x].1 == &self.macros@[i as int]);
                    } else {
                        assert(r@[x] == before[x - 1]);
                    }
                }
                assert forall|x: int| 0 <= x < r@.len() - 1 implies (#[trigger] r@[x].0 as u32) < (r@[x + 1].0 as u32) by {
                    if x + 1 < k {
                        assert(r@[x] == before[x] && r@[x + 1] == before[x + 1]);
                    } else if x + 1 == k {
                        assert(r@[x] == before[x]);
                    } else if x == k {
                        assert(r@[x + 1] == before[x]);
                    } else {
                        assert(r@[x] == before[x - 1] && r@[x + 1] == before[x]);
                    }
                }
            }
            i = i + 1;
        }
        proof {
            assert forall|x: int| 0 <= x < r@.len() implies #[trigger] self.stored(r@[x].0) == Some(*r@[x].1) by {
                let j = choose|j: int| 0 <= j < self.macros@.len() && #[trigger] r@[x].1 == &self.macros@[j] && r@[x].0 == self.macros@[j].name;
                lemma_stored_at(self.macros@, j);
            }
        }
        r
    }

    /// Clear a specific macro; whether there was one
    pub fn clear_macro(&mut self, register: char) -> (b: bool)
        requires
            old(self).well_formed(),
        ensures
            final(self).well_formed(),
            b == old(self).stored(register) is Some,
            final(self).stored(register) is None,
            forall|q: char| q != register ==> #[trigger] final(self).stored(q) == old(self).stored(q),
            final(self).recording == old(self).recording,
            final(self).last_played == old(self).last_played,
            final(self).playing == old(self).playing,
    {
        proof {
            lemma_stored_position(self.macros@, register);
        }
        match self.position_of(register) {
            Some(i) => {
                let ghost old_macros = self.macros@;
                let _removed = self.macros.remove(i);
                proof {
                    lemma_remove(old_macros, i as int);
                }
                true
            },
            None => false,
        }
    }

    /// Clear all macros
    pub fn clear_all_macros(&mut self)
        requires
            old(self).well_formed(),
        ensures
            final(self).well_formed(),
            forall|q: char| #[trigger] final(self).stored(q) is None,
            final(self).recording == old(self).recording,
            final(self).last_played == old(self).last_played,
            final(self).playing == old(self).playing,
    {
        self.macros.clear();
    }

    /// Get macro recording status for display
    pub fn get_status(&self) -> (s: String)
        ensures
            s@ == match self.recording {
                Some(m) => "Recording macro '"@ + seq![m.name] + "' ("@ + digits::decimal(m.events@.len()) + " events)"@,
                None => "Not recording macro"@,
            },
    {
        match &self.recording {
            Some(m) => {
                let mut s = owned("Recording macro '");
                push_char(&mut s, m.name);
                let s = concat(s.as_str(), "' (");
                let s = concat(s.as_str(), digits::decimal_string(m.events.len() as u64).as_str());
                concat(s.as_str(), " events)")
            },
            None => owned("Not recording macro"),
        }
    }
}

impl Default for MacroRecorder {
    fn default() -> (m: Self)
        ensures
            m.well_formed(),
            m.recording is None,
            forall|r: char| #[trigger] m.stored(r) is None,
    {
        Self::new()
    }
}

/// Finding a register by position agrees with `stored_in` when no register repeats.
proof fn lemma_stored_position(v: Seq<Macro>, r: char)
    requires
        forall|i: int, j: int| 0 <= i < j < v.len() ==> #[trigger] v[i].name != #[trigger] v[j].name,
    ensures
        (forall|j: int| 0 <= j < v.len() ==> #[trigger] v[j].name != r) ==> stored_in(v, r) is None,
        forall|i: int| 0 <= i < v.len() && #[trigger] v[i].name == r ==> stored_in(v, r) == Some(v[i]),
    decreases v.len(),
{
    if v.len() > 0 {
        let p = v.drop_last();
        lemma_stored_position(p, r);
        assert forall|i: int| 0 <= i < v.len() && #[trigger] v[i].name == r implies stored_in(v, r) == Some(v[i]) by {
            if i < v.len() - 1 {
                assert(v[i].name != v[v.len() - 1].name);
                assert(p[i] == v[i]);
            }
        }
        if forall|j: int| 0 <= j < v.len() ==> #[trigger] v[j].name != r {
            assert forall|j: int| 0 <= j < p.len() implies #[trigger] p[j].name != r by {
                assert(p[j] == v[j]);
            }
            assert(v[v.len() - 1].name != r);
        }
    }
}

proof fn lemma_stored_at(v: Seq<Macro>, j: int)
    requires
        0 <= j < v.len(),
        forall|a: int, b: int| 0 <= a < b < v.len() ==> #[trigger] v[a].name != #[trigger] v[b].name,
    ensures
        stored_in(v, v[j].name) == Some(v[j]),
{
    lemma_stored_position(v, v[j].name);
}

/// Replacing the macro of a register leaves the other registers as they were.
proof fn lemma_update_other(s: Seq<Macro>, i: int, e: Macro, q: char)
    requires
        0 <= i < s.len(),
        s[i].name == e.name,
        q != e.name,
    ensures
        stored_in(s.update(i, e), q) == stored_in(s, q),
    decreases s.len(),
{
    let u = s.update(i, e);
    if i == s.len() - 1 {
        assert(u.drop_last() =~= s.drop_last());
    } else {
        assert(u.drop_last() =~= s.drop_last().update(i, e));
        lemma_update_other(s.drop_last(), i, e, q);
    }
}

/// With each register stored once, replacing its macro makes it that register's macro.
proof fn lemma_update_found(s: Seq<Macro>, i: int, e: Macro)
    requires
        0 <= i < s.len(),
        s[i].name == e.name,
        forall|a: int, b: int| 0 <= a < b < s.len() ==> #[trigger] s[a].name != #[trigger] s[b].name,
    ensures
        stored_in(s.update(i, e), e.name) == Some(e),
    decreases s.len(),
{
    let u = s.update(i, e);
    if i < s.len() - 1 {
        assert(s[i].name != s[s.len() - 1].name);
        assert(u.drop_last() =~= s.drop_last().update(i, e));
        lemma_update_found(s.drop_last(), i, e);
    }
}

/// Removing a register's macro keeps the others and no register repeats.
proof fn lemma_remove(s: Seq<Macro>, i: int)
    requires
        0 <= i < s.len(),
        forall|a: int, b: int| 0 <= a < b < s.len() ==> #[trigger] s[a].name != #[trigger] s[b].name,
    ensures
        forall|a: int, b: int| 0 <= a < b < s.remove(i).len() ==> #[trigger] s.remove(i)[a].name != #[trigger] s.remove(i)[b].name,
        stored_in(s.remove(i), s[i].name) is None,
        forall|q: char| q != s[i].name ==> #[trigger] stored_in(s.remove(i), q) == stored_in(s, q),
{
    let t = s.remove(i);
    assert forall|a: int, b: int| 0 <= a < b < t.len() implies #[trigger] t[a].name != #[trigger] t[b].name by {
        let a2 = if a < i { a } else { a + 1 };
        let b2 = if b < i { b } else { b + 1 };
        assert(t[a] == s[a2] && t[b] == s[b2]);
    }
    lemma_stored_position(t, s[i].name);
    assert forall|j: int| 0 <= j < t.len() implies #[trigger] t[j].name != s[i].name by {
        let j2 = if j < i { j } else { j + 1 };
        assert(t[j] == s[j2]);
    }
    assert forall|q: char| q != s[i].name implies #[trigger] stored_in(t, q) == stored_in(s, q) by {
        lemma_stored_position(t, q);
        lemma_stored_position(s, q);
        if exists|j: int| 0 <= j < s.len() && #[trigger] s[j].name == q {
            let j = choose|j: int| 0 <= j < s.len() && #[trigger] s[j].name == q;
            assert(j != i);
            let j2 = if j < i { j } else { j - 1 };
            assert(t[j2] == s[j]);
        } else {
            assert forall|j: int| 0 <= j < t.len() implies #[trigger] t[j].name != q by {
                let j2 = if j < i { j } else { j + 1 };
                assert(t[j] == s[j2]);
            }
        }
    }
}

/// The events a macro holds after the keys `keys` were recorded into it from empty:
/// each key in turn, except the bare `q` that stops recording.
pub open spec fn recorded_events(keys: Seq<KeyInput>) -> Seq<MacroKeyEvent>
    decreases keys.len(),
{
    if keys.len() == 0 {
        Seq::empty()
    } else if is_stop_key(keys.last()) {
        recorded_events(keys.drop_last())
    } else {
        recorded_events(keys.drop_last()).push(MacroKeyEvent::spec_from(keys.last()))
    }
}

/// The keys that playing a macro gives back.
pub open spec fn played_keys(events: Seq<MacroKeyEvent>) -> Seq<KeyInput> {
    events.map_values(|e: MacroKeyEvent| MacroKeyEvent::spec_to(e))
}

/// Recording keys into a macro and playing it back gives exactly the keys that were
/// typed, in order, without the bare `q` that ends the recording.
pub proof fn law_playback_replays_recording(keys: Seq<KeyInput>)
    ensures
        played_keys(recorded_events(keys)) == keys.filter(|k: KeyInput| !is_stop_key(k)),
    decreases keys.len(),
{
    let p = |k: KeyInput| !is_stop_key(k);
    if keys.len() == 0 {
        reveal_with_fuel(Seq::filter, 1);
        assert(played_keys(recorded_events(keys)) =~= Seq::<KeyInput>::empty());
    } else {
        let front = keys.drop_last();
        law_playback_replays_recording(front);
        assert(front.push(keys.last()) =~= keys);
        front.lemma_filter_push(keys.last(), p);
        if !is_stop_key(keys.last()) {
            let ev = recorded_events(front);
            assert(played_keys(ev.push(MacroKeyEvent::spec_from(keys.last()))) =~= played_keys(ev).push(
                keys.last(),
            ));
        }
    }
}

} // verus!
