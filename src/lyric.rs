//! Choice and timing of the lyrics shown for the current song.
use vstd::prelude::*;

verus! {

/// One embedded lyric text, with its description (usually a language).
#[derive(Debug)]
pub struct LyricFrame {
    pub description: String,
    pub text: String,
}

/// The lyrics of a song: the embedded texts, the one shown, and the delay in
/// milliseconds applied to its timestamps.
#[derive(Debug)]
pub struct SongLyrics {
    pub frames: Vec<LyricFrame>,
    pub selected: usize,
    pub delay_ms: i64,
}

/// Why the lyric delay could not be changed.
#[derive(Clone, Copy, Debug, PartialEq, Eq, Structural)]
pub enum LyricError {
    /// The new delay does not fit in 64 bits.
    DelayOutOfRange,
}

/// The lyric state of the user interface.
#[derive(Debug)]
pub struct Model {
    pub current_song: Option<SongLyrics>,
}

/// The lyric shown after `selected`, going back to the first after the last.
pub open spec fn next_lyric(selected: usize, count: nat) -> usize {
    if selected + 1 >= count {
        0
    } else {
        (selected + 1) as usize
    }
}

impl Model {
    /// Switches the current song to its next embedded lyric and returns that
    /// lyric's description. Without a song, or with no lyric embedded, nothing
    /// changes and `None` is returned.
    pub fn lyric_cycle(&mut self) -> (r: Option<String>)
        ensures
            match old(self).current_song {
                Some(s) if s.frames@.len() > 0 => {
                    let next = next_lyric(s.selected, s.frames@.len());
                    &&& final(self).current_song matches Some(t)
                    &&& t.selected == next
                    &&& t.frames@ == s.frames@
                    &&& t.delay_ms == s.delay_ms
                    &&& r matches Some(d)
                    &&& d@ == s.frames@[next as int].description@
                },
                _ => r is None && *final(self) == *old(self),
            },
    {
        match &mut self.current_song {
            Some(song) => {
                let n = song.frames.len();
                if n == 0 {
                    return None;
                }
                let next = if song.selected >= n - 1 {
                    0
                } else {
                    song.selected + 1
                };
                song.selected = next;
                Some(song.frames[next].description.clone())
            },
            None => None,
        }
    }

    /// Moves the current song's lyrics by `offset` milliseconds. Without a
    /// song, or with no lyric embedded, nothing changes; a delay that would not
    /// fit leaves it unchanged and is an error.
    pub fn lyric_adjust_delay(&mut self, offset: i64) -> (r: Result<(), LyricError>)
        ensures
            match old(self).current_song {
                Some(s) if s.frames@.len() > 0 => {
                    let d = s.delay_ms + offset;
                    if i64::MIN <= d <= i64::MAX {
                        &&& r is Ok
                        &&& final(self).current_song matches Some(t)
                        &&& t.delay_ms == d
                        &&& t.selected == s.selected
                        &&& t.frames@ == s.frames@
                    } else {
                        r == Err::<(), LyricError>(LyricError::DelayOutOfRange) && *final(self) == *old(self)
                    }
                },
                _ => r is Ok && *final(self) == *old(self),
            },
    {
        match &mut self.current_song {
            Some(song) => {
                if song.frames.len() == 0 {
                    return Ok(());
                }
                match song.delay_ms.checked_add(offset) {
                    Some(d) => {
                        song.delay_ms = d;
                        Ok(())
                    },
                    None => Err(LyricError::DelayOutOfRange),
                }
            },
            None => Ok(()),
        }
    }
}

} // verus!
