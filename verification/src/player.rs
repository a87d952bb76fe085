//! What the player does for each user command: the shared playback state,
//! the keys a user types, and the step the playback loop takes.
use vstd::prelude::*;
use vstd::arithmetic::div_mod::{lemma_mod_add_multiples_vanish, lemma_small_mod};
use crate::wav::WavFile;

verus! {

/// The playback state that the command reader sets and the player follows.
#[derive(Debug, Clone, Copy, PartialEq, Eq, Structural)]
pub enum Action {
    /// Both threads end.
    Quit,
    /// Nothing to do: the state before the first command.
    Idle,
    /// Keep sending buffers of the current track to the device.
    Play,
    /// Send nothing and keep the position in the track.
    Pause,
    /// Open the previous track, then play.
    Previous,
    /// Move back to the start of the audio data, then play.
    Rewind,
    /// Open the next track, then play.
    Skip,
}

/// A command typed by the user.
#[derive(Debug, Clone, Copy, PartialEq, Eq, Structural)]
pub enum Key {
    /// `Q`: exit the program.
    Quit,
    /// `P`: toggle between playing and paused.
    PlayPause,
    /// `R`: restart the current track.
    Rewind,
    /// `V`: play the previous track.
    Previous,
    /// `S`: play the next track.
    Skip,
}

/// What the playback loop does next.
#[derive(Debug, Clone, Copy, PartialEq, Eq, Structural)]
pub enum PlayerStep {
    /// Leave the loop and drain the sound device.
    Stop,
    /// Do nothing this round.
    Wait,
    /// Read the next buffer of the open track and send its samples to the device.
    PlayChunk,
    /// Move the open track to this offset, the first byte of its audio data.
    SeekTo(u64),
    /// Open the track with this index and move it to `offset`, the first byte of its audio data.
    OpenTrack { index: usize, offset: u64 },
}

/// The bytes that `u8::is_ascii_whitespace` accepts: space, tab, line feed, form feed, carriage return.
pub open spec fn is_ascii_whitespace(c: u8) -> bool {
    c == 0x20 || c == 0x09 || c == 0x0a || c == 0x0c || c == 0x0d
}

/// The key that a single letter stands for, in either case.
pub open spec fn key_for_letter(c: u8) -> Option<Key> {
    if c == 0x51 || c == 0x71 {
        Some(Key::Quit)
    } else if c == 0x50 || c == 0x70 {
        Some(Key::PlayPause)
    } else if c == 0x52 || c == 0x72 {
        Some(Key::Rewind)
    } else if c == 0x56 || c == 0x76 {
        Some(Key::Previous)
    } else if c == 0x53 || c == 0x73 {
        Some(Key::Skip)
    } else {
        None
    }
}

/// `line[i]` is the one byte of `line` that is not ASCII whitespace, so that the
/// line with surrounding whitespace trimmed is that byte alone.
pub open spec fn sole_non_whitespace(line: Seq<u8>, i: int) -> bool {
    &&& 0 <= i < line.len()
    &&& !is_ascii_whitespace(line[i])
    &&& forall|j: int| 0 <= j < line.len() && j != i ==> is_ascii_whitespace(#[trigger] line[j])
}

/// The key that a typed line stands for: the line, trimmed of ASCII whitespace at
/// both ends, must be one of the letters Q, P, R, V, S in either case.
pub open spec fn line_key(line: Seq<u8>) -> Option<Key> {
    if exists|i: int| sole_non_whitespace(line, i) {
        key_for_letter(line[choose|i: int| sole_non_whitespace(line, i)])
    } else {
        None
    }
}

/// The state after the user presses `key` in state `state`.
pub open spec fn after_key(state: Action, key: Key) -> Action {
    match key {
        Key::Quit => Action::Quit,
        Key::PlayPause => if state == Action::Pause || state == Action::Idle { Action::Play } else { Action::Pause },
        Key::Rewind => Action::Rewind,
        Key::Previous => Action::Previous,
        Key::Skip => Action::Skip,
    }
}

/// The index of the track after track `i` of `n`, wrapping to the first.
pub open spec fn next_track(i: int, n: int) -> int {
    (i + 1) % n
}

/// The index of the track before track `i` of `n`, wrapping to the last.
pub open spec fn previous_track(i: int, n: int) -> int {
    (n + i - 1) % n
}

/// Opening track `i` of `tracks` at the first byte of its audio data.
pub open spec fn open_at_data(tracks: Seq<WavFile>, i: int) -> PlayerStep {
    PlayerStep::OpenTrack { index: i as usize, offset: tracks[i].data_start }
}

/// The step the player takes in state `state` while track `index` of `tracks` is open.
pub open spec fn step_for(state: Action, index: int, tracks: Seq<WavFile>) -> PlayerStep {
    let n = tracks.len() as int;
    match state {
        Action::Quit => PlayerStep::Stop,
        Action::Idle => PlayerStep::Wait,
        Action::Play => PlayerStep::PlayChunk,
        Action::Pause => PlayerStep::Wait,
        Action::Rewind => PlayerStep::SeekTo(tracks[index].data_start),
        Action::Previous => open_at_data(tracks, previous_track(index, n)),
        Action::Skip => open_at_data(tracks, next_track(index, n)),
    }
}

/// The state after the player took `step` in state `state`, where `succeeded` says
/// whether the seek, or the opening and positioning of a track, worked; `None`
/// ends playback.
pub open spec fn state_after_step(step: PlayerStep, state: Action, succeeded: bool) -> Option<Action> {
    match step {
        PlayerStep::Stop => Option::None,
        PlayerStep::Wait | PlayerStep::PlayChunk => Some(state),
        PlayerStep::SeekTo(_) | PlayerStep::OpenTrack { .. } =>
            if succeeded { Some(Action::Play) } else { Option::None },
    }
}

/// The key for one typed line, or `None` when the line is not a command.
pub fn parse_key(line: &[u8]) -> (r: Option<Key>)
    ensures
        r == line_key(line@),
{
    let mut found: Option<usize> = Option::None;
    let mut count: usize = 0;
    let mut i: usize = 0;
    while i < line.len()
        invariant
            i <= line.len(),
            count <= 2,
            count == 0 ==> found is None && forall|j: int| 0 <= j < i ==> is_ascii_whitespace(#[trigger] line@[j]),
            count == 1 ==> (found matches Some(k) && k < i && sole_non_whitespace(line@.subrange(0, i as int), k as int)),
            count == 2 ==> exists|a: int, b: int| 0 <= a < b < i && !is_ascii_whitespace(#[trigger] line@[a]) && !is_ascii_whitespace(#[trigger] line@[b]),
        decreases line.len() - i,
    {
        let c = line[i];
        let ws = c == 0x20 || c == 0x09 || c == 0x0a || c == 0x0c || c == 0x0d;
        if !ws {
            if count == 0 {
                found = Some(i);
                count = 1;
                assert(forall|j: int| 0 <= j < i + 1 && j != i ==> line@.subrange(0, i + 1)[j] == line@[j]);
            } else if count == 1 {
                let ghost k = found.unwrap() as int;
                assert(!is_ascii_whitespace(line@[k])) by {
                    assert(line@.subrange(0, i as int)[k] == line@[k]);
                }
                count = 2;
            }
        } else {
            if count == 1 {
                let ghost k = found.unwrap() as int;
                let ghost s = line@.subrange(0, i + 1);
                assert forall|j: int| 0 <= j < s.len() && j != k implies is_ascii_whitespace(#[trigger] s[j]) by {
                    if j < i {
                        assert(s[j] == line@.subrange(0, i as int)[j]);
                    }
                }
                assert(s[k] == line@.subrange(0, i as int)[k]);
            }
        }
        i += 1;
    }
    proof {
        assert(line@.subrange(0, line.len() as int) =~= line@);
        if count == 2 {
            let (a, b) = choose|a: int, b: int| 0 <= a < b < line.len() && !is_ascii_whitespace(#[trigger] line@[a]) && !is_ascii_whitespace(#[trigger] line@[b]);
            assert forall|k: int| !sole_non_whitespace(line@, k) by {
                if sole_non_whitespace(line@, k) {
                    if k != a {
                        assert(is_ascii_whitespace(line@[a]));
                    } else {
                        assert(is_ascii_whitespace(line@[b]));
                    }
                }
            }
        } else if count == 0 {
            assert forall|k: int| !sole_non_whitespace(line@, k) by {
                if 0 <= k < line.len() {
                    assert(is_ascii_whitespace(line@[k]));
                }
            }
        } else {
            let k = found.unwrap() as int;
            assert(sole_non_whitespace(line@, k));
            let c = choose|i: int| sole_non_whitespace(line@, i);
            if c != k {
                assert(is_ascii_whitespace(line@[c]));
            }
        }
    }
    match found {
        Some(k) => {
            if count != 1 {
                return Option::None;
            }
            let c = line[k];
            if c == 0x51 || c == 0x71 {
                Some(Key::Quit)
            } else if c == 0x50 || c == 0x70 {
                Some(Key::PlayPause)
            } else if c == 0x52 || c == 0x72 {
                Some(Key::Rewind)
            } else if c == 0x56 || c == 0x76 {
                Some(Key::Previous)
            } else if c == 0x53 || c == 0x73 {
                Some(Key::Skip)
            } else {
                Option::None
            }
        },
        Option::None => Option::None,
    }
}

/// The state after the user presses `key`.
pub fn apply_key(state: Action, key: Key) -> (r: Action)
    ensures
        r == after_key(state, key),
{
    match key {
        Key::Quit => Action::Quit,
        Key::PlayPause => if state == Action::Pause || state == Action::Idle { Action::Play } else { Action::Pause },
        Key::Rewind => Action::Rewind,
        Key::Previous => Action::Previous,
        Key::Skip => Action::Skip,
    }
}

/// The state after the user types `line`: a line that is no command leaves it unchanged.
pub fn command_transition(state: Action, line: &[u8]) -> (r: Action)
    ensures
        r == match line_key(line@) {
            Some(k) => after_key(state, k),
            Option::None => state,
        },
{
    match parse_key(line) {
        Some(k) => apply_key(state, k),
        Option::None => state,
    }
}

/// The index of the track after track `index`, wrapping from the last to the first.
pub fn next_index(index: usize, track_count: usize) -> (r: usize)
    requires
        index < track_count,
    ensures
        r == next_track(index as int, track_count as int),
        r < track_count,
{
    proof {
        if index + 1 == track_count {
            lemma_mod_add_multiples_vanish(0, track_count as int);
        } else {
            lemma_small_mod((index + 1) as nat, track_count as nat);
        }
    }
    if index + 1 == track_count {
        0
    } else {
        index + 1
    }
}

/// The index of the track before track `index`, wrapping from the first to the last.
pub fn previous_index(index: usize, track_count: usize) -> (r: usize)
    requires
        index < track_count,
    ensures
        r == previous_track(index as int, track_count as int),
        r < track_count,
{
    proof {
        let n = track_count as int;
        if index == 0 {
            lemma_small_mod((n - 1) as nat, n as nat);
        } else {
            lemma_mod_add_multiples_vanish(index - 1, n);
            lemma_small_mod((index - 1) as nat, n as nat);
        }
    }
    if index == 0 {
        track_count - 1
    } else {
        index - 1
    }
}

/// The first step of playback: opening the first track at its audio data.
pub fn first_step(tracks: &Vec<WavFile>) -> (r: PlayerStep)
    requires
        tracks.len() > 0,
    ensures
        r == open_at_data(tracks@, 0),
{
    PlayerStep::OpenTrack { index: 0, offset: tracks[0].data_start }
}

/// The step the player takes in state `state` while track `index` of `tracks` is open.
pub fn player_step(state: Action, index: usize, tracks: &Vec<WavFile>) -> (r: PlayerStep)
    requires
        index < tracks.len(),
    ensures
        r == step_for(state, index as int, tracks@),
        r matches PlayerStep::OpenTrack { index: i, offset: _ } ==> i < tracks.len(),
{
    let n = tracks.len();
    match state {
        Action::Quit => PlayerStep::Stop,
        Action::Idle => PlayerStep::Wait,
        Action::Play => PlayerStep::PlayChunk,
        Action::Pause => PlayerStep::Wait,
        Action::Rewind => PlayerStep::SeekTo(tracks[index].data_start),
        Action::Previous => {
            let i = previous_index(index, n);
            PlayerStep::OpenTrack { index: i, offset: tracks[i].data_start }
        },
        Action::Skip => {
            let i = next_index(index, n);
            PlayerStep::OpenTrack { index: i, offset: tracks[i].data_start }
        },
    }
}

/// The state after the player took `step` in state `state`.
/// A rewind or a change of track that worked resumes playing; one that failed
/// ends playback; a buffer that could not be read or written is passed over.
pub fn state_after(step: PlayerStep, state: Action, succeeded: bool) -> (r: Option<Action>)
    ensures
        r == state_after_step(step, state, succeeded),
{
    match step {
        PlayerStep::Stop => Option::None,
        PlayerStep::Wait => Some(state),
        PlayerStep::PlayChunk => Some(state),
        PlayerStep::SeekTo(_) | PlayerStep::OpenTrack { .. } => {
            if succeeded {
                Some(Action::Play)
            } else {
                Option::None
            }
        },
    }
}

/// Skipping and then going back returns to the same track, and going back and
/// then skipping does too.
pub proof fn lemma_skip_and_previous_undo_each_other(i: int, n: int)
    requires
        0 <= i < n,
    ensures
        previous_track(next_track(i, n), n) == i,
        next_track(previous_track(i, n), n) == i,
{
    if i + 1 == n {
        lemma_mod_add_multiples_vanish(0, n);
    } else {
        lemma_small_mod((i + 1) as nat, n as nat);
    }
    let j = next_track(i, n);
    lemma_mod_add_multiples_vanish(j - 1, n);
    if j == 0 {
        lemma_small_mod((n - 1) as nat, n as nat);
    } else {
        lemma_small_mod((j - 1) as nat, n as nat);
    }
    if i == 0 {
        lemma_small_mod((n - 1) as nat, n as nat);
    } else {
        lemma_mod_add_multiples_vanish(i - 1, n);
        lemma_small_mod((i - 1) as nat, n as nat);
    }
    let k = previous_track(i, n);
    if k + 1 == n {
        lemma_mod_add_multiples_vanish(0, n);
    } else {
        lemma_small_mod((k + 1) as nat, n as nat);
    }
}

/// Skipping plays the track after the current one, and from the last track it
/// loops to the first; going back plays the one before, and from the first it
/// loops to the last.
pub proof fn lemma_playlist_wraps(i: int, n: int)
    requires
        0 <= i < n,
    ensures
        i + 1 < n ==> next_track(i, n) == i + 1,
        i + 1 == n ==> next_track(i, n) == 0,
        i > 0 ==> previous_track(i, n) == i - 1,
        i == 0 ==> previous_track(i, n) == n - 1,
{
    if i + 1 == n {
        lemma_mod_add_multiples_vanish(0, n);
    } else {
        lemma_small_mod((i + 1) as nat, n as nat);
    }
    if i == 0 {
        lemma_small_mod((n - 1) as nat, n as nat);
    } else {
        lemma_mod_add_multiples_vanish(i - 1, n);
        lemma_small_mod((i - 1) as nat, n as nat);
    }
}

/// P toggles between playing and paused: from either, pressing it once changes
/// the state and pressing it twice restores it. Before anything played it starts
/// playing; while a rewind or change of track is pending, it pauses.
pub proof fn lemma_play_pause_toggles(state: Action)
    ensures
        state == Action::Play || state == Action::Pause ==> {
            &&& after_key(state, Key::PlayPause) != state
            &&& after_key(after_key(state, Key::PlayPause), Key::PlayPause) == state
        },
        state == Action::Pause || state == Action::Idle ==> after_key(state, Key::PlayPause) == Action::Play,
        state != Action::Pause && state != Action::Idle ==> after_key(state, Key::PlayPause) == Action::Pause,
{
}

/// A command is read from its letter alone: ASCII whitespace around it is
/// ignored and either case of the letter gives the same key.
pub proof fn lemma_key_ignores_padding_and_case(before: Seq<u8>, c: u8, after: Seq<u8>)
    requires
        forall|j: int| 0 <= j < before.len() ==> is_ascii_whitespace(#[trigger] before[j]),
        forall|j: int| 0 <= j < after.len() ==> is_ascii_whitespace(#[trigger] after[j]),
        !is_ascii_whitespace(c),
    ensures
        line_key(before + seq![c] + after) == key_for_letter(c),
        0x61 <= c <= 0x7a ==> key_for_letter(c) == key_for_letter((c - 0x20) as u8),
{
    let line = before + seq![c] + after;
    let k = before.len() as int;
    assert forall|j: int| 0 <= j < line.len() && j != k implies is_ascii_whitespace(#[trigger] line[j]) by {
        if j < k {
            assert(line[j] == before[j]);
        } else {
            assert(line[j] == after[j - k - 1]);
        }
    }
    assert(line[k] == c);
    assert(sole_non_whitespace(line, k));
    let w = choose|i: int| sole_non_whitespace(line, i);
    if w != k {
        assert(is_ascii_whitespace(line[w]));
    }
}

/// What each key makes the player do next, whatever the state before: Q stops
/// playback, R moves back to the first audio byte of the current track, S and V
/// open the next and the previous track at their first audio byte, and a rewind
/// or change of track that worked resumes playing.
pub proof fn lemma_keys_drive_player(state: Action, i: int, tracks: Seq<WavFile>, ok: bool)
    requires
        0 <= i < tracks.len(),
    ensures
        step_for(after_key(state, Key::Quit), i, tracks) == PlayerStep::Stop,
        step_for(after_key(state, Key::Rewind), i, tracks) == PlayerStep::SeekTo(tracks[i].data_start),
        step_for(after_key(state, Key::Skip), i, tracks) == open_at_data(tracks, next_track(i, tracks.len() as int)),
        step_for(after_key(state, Key::Previous), i, tracks) == open_at_data(tracks, previous_track(i, tracks.len() as int)),
        after_key(state, Key::PlayPause) == Action::Play ==> step_for(after_key(state, Key::PlayPause), i, tracks) == PlayerStep::PlayChunk,
        after_key(state, Key::PlayPause) == Action::Pause ==> step_for(after_key(state, Key::PlayPause), i, tracks) == PlayerStep::Wait,
        state_after_step(step_for(after_key(state, Key::Rewind), i, tracks), Action::Rewind, ok) == (if ok { Some(Action::Play) } else { Option::None }),
{
}

/// The index of the open track after the player has seen the states `states`,
/// starting from the first track: V moves back, S moves on, other states keep it.
pub open spec fn track_after(states: Seq<Action>, n: int) -> int
    decreases states.len(),
{
    if states.len() == 0 {
        0
    } else {
        let i = track_after(states.drop_last(), n);
        match states.last() {
            Action::Previous => previous_track(i, n),
            Action::Skip => next_track(i, n),
            _ => i,
        }
    }
}

/// Whatever states the command reader stores, the track that is open is always
/// one of the list, starting with the first; every track is opened at its first
/// audio byte; and the player only ever changes the state to Play, and only after
/// a rewind, skip or previous that worked.
pub proof fn lemma_player_stays_in_playlist(states: Seq<Action>, tracks: Seq<WavFile>, state: Action, ok: bool)
    requires
        1 <= tracks.len() <= usize::MAX,
    ensures
        0 <= track_after(states, tracks.len() as int) < tracks.len(),
        step_for(state, track_after(states, tracks.len() as int), tracks) matches PlayerStep::OpenTrack { index, offset }
            ==> index == track_after(states.push(state), tracks.len() as int) && offset == tracks[index as int].data_start,
        state_after_step(step_for(state, track_after(states, tracks.len() as int), tracks), state, ok) matches Some(next)
            ==> next == state || (next == Action::Play && (state == Action::Rewind || state == Action::Skip || state == Action::Previous)),
    decreases states.len(),
{
    let n = tracks.len() as int;
    if states.len() > 0 {
        lemma_player_stays_in_playlist(states.drop_last(), tracks, state, ok);
        let i = track_after(states.drop_last(), n);
        lemma_playlist_wraps(i, n);
    }
    let i = track_after(states, n);
    lemma_playlist_wraps(i, n);
    assert(states.push(state).drop_last() =~= states);
    assert(states.push(state).last() == state);
    let j = track_after(states.push(state), n);
    assert(j == match state {
        Action::Previous => previous_track(i, n),
        Action::Skip => next_track(i, n),
        _ => i,
    });
}

/// Only a Stop step, or a seek or opening of a track that failed, ends playback.
/// Waiting and playing a buffer keep the state as it was; a seek or an opening of
/// a track that worked, whichever key asked for it, makes the player play.
pub proof fn lemma_what_ends_playback(step: PlayerStep, state: Action, succeeded: bool)
    ensures
        state_after_step(step, state, succeeded) is None <==> (step is Stop || (!succeeded && (step is SeekTo || step is OpenTrack))),
        step is Wait ==> state_after_step(step, state, succeeded) == Some(state),
        step is PlayChunk ==> state_after_step(step, state, succeeded) == Some(state),
        (step is SeekTo || step is OpenTrack) && succeeded ==> state_after_step(step, state, succeeded) == Some(Action::Play),
{
}

/// Every track that S or V opens, and every rewind, leads to playing when it works
/// and to the end of playback when it fails, and the player moves on to the track
/// that the step names.
pub proof fn lemma_change_of_track_plays(state: Action, i: int, tracks: Seq<WavFile>, key: Key)
    requires
        0 <= i < tracks.len(),
        key == Key::Skip || key == Key::Previous || key == Key::Rewind,
    ensures
        state_after_step(step_for(after_key(state, key), i, tracks), after_key(state, key), true) == Some(Action::Play),
        state_after_step(step_for(after_key(state, key), i, tracks), after_key(state, key), false) is None,
{
}

/// The states in which the player waits, plays, or stops.
pub proof fn lemma_steps_of_states(i: int, tracks: Seq<WavFile>)
    requires
        0 <= i < tracks.len(),
    ensures
        step_for(Action::Idle, i, tracks) == PlayerStep::Wait,
        step_for(Action::Pause, i, tracks) == PlayerStep::Wait,
        step_for(Action::Play, i, tracks) == PlayerStep::PlayChunk,
        step_for(Action::Quit, i, tracks) == PlayerStep::Stop,
{
}

/// The letters Q, P, R, V and S, in either case, are the commands; every other
/// byte is none.
pub proof fn lemma_command_letters(c: u8)
    ensures
        key_for_letter('q' as u8) == Some(Key::Quit) && key_for_letter('Q' as u8) == Some(Key::Quit),
        key_for_letter('p' as u8) == Some(Key::PlayPause) && key_for_letter('P' as u8) == Some(Key::PlayPause),
        key_for_letter('r' as u8) == Some(Key::Rewind) && key_for_letter('R' as u8) == Some(Key::Rewind),
        key_for_letter('v' as u8) == Some(Key::Previous) && key_for_letter('V' as u8) == Some(Key::Previous),
        key_for_letter('s' as u8) == Some(Key::Skip) && key_for_letter('S' as u8) == Some(Key::Skip),
        c != 'q' as u8 && c != 'Q' as u8 && c != 'p' as u8 && c != 'P' as u8 && c != 'r' as u8 && c != 'R' as u8
            && c != 'v' as u8 && c != 'V' as u8 && c != 's' as u8 && c != 'S' as u8 ==> key_for_letter(c) is None,
        is_ascii_whitespace(' ' as u8) && is_ascii_whitespace('\t' as u8) && is_ascii_whitespace('\n' as u8)
            && is_ascii_whitespace('\r' as u8) && is_ascii_whitespace(0x0c),
        c != ' ' as u8 && c != '\t' as u8 && c != '\n' as u8 && c != '\r' as u8 && c != 0x0c ==> !is_ascii_whitespace(c),
{
}

} // verus!
