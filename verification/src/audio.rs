//! The sound-effect vocabulary of the audio layer: the tags that the
//! platform code binds to audio files and plays. Binding and playback live
//! outside the library; the mapping from a tick's sound events to these tags
//! is verified here.

use vstd::prelude::*;

use crate::state::Sound;

verus! {

#[derive(Copy, Clone, Hash, PartialEq, Eq, Structural, Debug)]
pub enum Music {
    Background,
}

#[derive(Copy, Clone, Hash, PartialEq, Eq, Structural, Debug)]
pub enum TheSound {
    Gunshot,
    Reload,
    PersonInfected,
    ZombieDeath,
}

/// The audio tag of a simulation sound event.
pub fn sound_effect_of(s: Sound) -> (r: TheSound)
    ensures
        s is Gunshot <==> r is Gunshot,
        s is Reload <==> r is Reload,
        s is PersonInfected <==> r is PersonInfected,
        s is ZombieDeath <==> r is ZombieDeath,
{
    match s {
        Sound::Gunshot => TheSound::Gunshot,
        Sound::Reload => TheSound::Reload,
        Sound::PersonInfected => TheSound::PersonInfected,
        Sound::ZombieDeath => TheSound::ZombieDeath,
    }
}

} // verus!
