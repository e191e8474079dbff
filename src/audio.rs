use vstd::prelude::*;
use vstd::string::StringExecFns;

verus! {

/// The sound effects the game plays.
#[derive(Clone, Copy, Debug, PartialEq, Eq, Hash, Structural)]
pub enum SoundEffect {
    Lose,
    Move,
    Rotate,
    Menu,
    RowCompleted,
}

/// The base name of a sound effect's file.
pub open spec fn sound_name(e: SoundEffect) -> Seq<char> {
    match e {
        SoundEffect::Lose => "lose"@,
        SoundEffect::Move => "move"@,
        SoundEffect::Rotate => "rotate"@,
        SoundEffect::Menu => "menu"@,
        SoundEffect::RowCompleted => "row_completed"@,
    }
}

/// The path of a sound effect's file.
pub open spec fn sound_file(e: SoundEffect) -> Seq<char> {
    "assets/"@ + sound_name(e) + ".mp3"@
}

impl SoundEffect {
    /// The path of the file that holds this sound effect.
    pub fn to_filename(&self) -> (r: String)
        ensures
            r@ == sound_file(*self),
    {
        let name: &str = match self {
            SoundEffect::Lose => "lose",
            SoundEffect::Move => "move",
            SoundEffect::Rotate => "rotate",
            SoundEffect::Menu => "menu",
            SoundEffect::RowCompleted => "row_completed",
        };
        <String as StringExecFns>::from_str("assets/").concat(name).concat(".mp3")
    }
}

} // verus!
