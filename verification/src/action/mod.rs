//! The actions a control can be mapped to, and what performing one asks of the system.
use vstd::prelude::*;

pub mod command;
pub mod executor;
pub mod media;

pub use command::{CommandView, ProcessCommand};
pub use executor::{
    cycle_audio_command, cycle_audio_has_outputs, execute_cycle_audio, execute_mute_toggle, execute_volume_change, get_default_sink_command,
    list_sinks_command, next_sink_index, sink_names, volume_percent,
};
pub use media::{
    execute_media, execute_media_command, execute_next_track, execute_pause, execute_play,
    execute_play_pause, execute_previous_track, mpris_players, player_query_command, MediaMethod,
};

use crate::action::executor::{mute_command, volume_command};

verus! {

/// What a MIDI control can be mapped to.
#[derive(Debug, Clone, Copy, PartialEq, Eq, Hash, Structural)]
pub enum Action {
    NoAction,
    SystemVolume,
    Mute,
    PlayPause,
    CycleAudioOutput,
    NextTrack,
    PreviousTrack,
    Play,
    Pause,
}

/// The work that performing an action asks of the system.
pub enum Effect {
    /// Nothing is done.
    Nothing,
    /// One command is run.
    Run(ProcessCommand),
    /// Every MPRIS media player is sent one method.
    Media(MediaMethod),
    /// The default audio output moves on to the next one.
    CycleAudioOutput,
}

/// The mathematical value of an [`Effect`].
pub enum EffectView {
    Nothing,
    Run(CommandView),
    Media(MediaMethod),
    CycleAudioOutput,
}

impl View for Effect {
    type V = EffectView;

    open spec fn view(&self) -> EffectView {
        match self {
            Effect::Nothing => EffectView::Nothing,
            Effect::Run(c) => EffectView::Run(c@),
            Effect::Media(m) => EffectView::Media(*m),
            Effect::CycleAudioOutput => EffectView::CycleAudioOutput,
        }
    }
}

/// The action with position `i` in the list of all actions; every other number is `None`.
pub open spec fn action_at(i: int) -> Action {
    if i == 1 {
        Action::SystemVolume
    } else if i == 2 {
        Action::Mute
    } else if i == 3 {
        Action::PlayPause
    } else if i == 4 {
        Action::CycleAudioOutput
    } else if i == 5 {
        Action::NextTrack
    } else if i == 6 {
        Action::PreviousTrack
    } else if i == 7 {
        Action::Play
    } else if i == 8 {
        Action::Pause
    } else {
        Action::NoAction
    }
}

impl Action {
    /// The number of actions.
    pub const COUNT: usize = 9;

    /// All actions, in the order of their numbers.
    pub const ALL: [Action; 9] = [
        Action::NoAction,
        Action::SystemVolume,
        Action::Mute,
        Action::PlayPause,
        Action::CycleAudioOutput,
        Action::NextTrack,
        Action::PreviousTrack,
        Action::Play,
        Action::Pause,
    ];

    /// The position of the action in the list of all actions, which is also its number.
    pub open spec fn position(self) -> nat {
        match self {
            Action::NoAction => 0,
            Action::SystemVolume => 1,
            Action::Mute => 2,
            Action::PlayPause => 3,
            Action::CycleAudioOutput => 4,
            Action::NextTrack => 5,
            Action::PreviousTrack => 6,
            Action::Play => 7,
            Action::Pause => 8,
        }
    }

    /// The text shown for the action.
    pub open spec fn label_text(self) -> Seq<char> {
        match self {
            Action::NoAction => "None"@,
            Action::SystemVolume => "System Volume"@,
            Action::Mute => "Mute Toggle"@,
            Action::PlayPause => "Play/Pause"@,
            Action::CycleAudioOutput => "Cycle Audio Output"@,
            Action::NextTrack => "Next Track"@,
            Action::PreviousTrack => "Previous Track"@,
            Action::Play => "Play"@,
            Action::Pause => "Pause"@,
        }
    }

    /// Whether a control value makes the action run: never for `None`, on every
    /// value for the volume, and only when pressed (a value above 0) for the others.
    pub open spec fn runs_on(self, value: u8) -> bool {
        match self {
            Action::NoAction => false,
            Action::SystemVolume => true,
            _ => value > 0,
        }
    }

    /// What performing the action on a control value asks of the system.
    pub open spec fn effect(self, value: u8) -> EffectView {
        if !self.runs_on(value) {
            EffectView::Nothing
        } else {
            match self {
                Action::NoAction => EffectView::Nothing,
                Action::SystemVolume => EffectView::Run(volume_command(value)),
                Action::Mute => EffectView::Run(mute_command()),
                Action::PlayPause => EffectView::Media(MediaMethod::PlayPause),
                Action::CycleAudioOutput => EffectView::CycleAudioOutput,
                Action::NextTrack => EffectView::Media(MediaMethod::Next),
                Action::PreviousTrack => EffectView::Media(MediaMethod::Previous),
                Action::Play => EffectView::Media(MediaMethod::Play),
                Action::Pause => EffectView::Media(MediaMethod::Pause),
            }
        }
    }

    /// All actions, in the order of their numbers.
    pub fn all() -> (r: [Action; 9])
        ensures
            forall|i: int| 0 <= i < 9 ==> #[trigger] r@[i] == action_at(i),
    {
        let r = Action::ALL;
        assert(r@ =~= seq![
            Action::NoAction,
            Action::SystemVolume,
            Action::Mute,
            Action::PlayPause,
            Action::CycleAudioOutput,
            Action::NextTrack,
            Action::PreviousTrack,
            Action::Play,
            Action::Pause,
        ]);
        r
    }

    /// The number of the action, which is its position in [`Action::all`].
    pub fn index(&self) -> (r: u32)
        ensures
            r == self.position(),
    {
        match self {
            Action::NoAction => 0,
            Action::SystemVolume => 1,
            Action::Mute => 2,
            Action::PlayPause => 3,
            Action::CycleAudioOutput => 4,
            Action::NextTrack => 5,
            Action::PreviousTrack => 6,
            Action::Play => 7,
            Action::Pause => 8,
        }
    }

    /// The action with number `v`; every number without an action gives `None`.
    pub fn from_index(v: u32) -> (r: Action)
        ensures
            r == action_at(v as int),
    {
        match v {
            1 => Action::SystemVolume,
            2 => Action::Mute,
            3 => Action::PlayPause,
            4 => Action::CycleAudioOutput,
            5 => Action::NextTrack,
            6 => Action::PreviousTrack,
            7 => Action::Play,
            8 => Action::Pause,
            _ => Action::NoAction,
        }
    }

    /// The text shown for the action.
    pub fn label(&self) -> (r: &'static str)
        ensures
            r@ == self.label_text(),
    {
        match self {
            Action::NoAction => "None",
            Action::SystemVolume => "System Volume",
            Action::Mute => "Mute Toggle",
            Action::PlayPause => "Play/Pause",
            Action::CycleAudioOutput => "Cycle Audio Output",
            Action::NextTrack => "Next Track",
            Action::PreviousTrack => "Previous Track",
            Action::Play => "Play",
            Action::Pause => "Pause",
        }
    }

    /// Whether the control value `value` makes the action run.
    pub fn should_execute(&self, value: u8) -> (r: bool)
        ensures
            r == self.runs_on(value),
    {
        match self {
            Action::NoAction => false,
            Action::SystemVolume => true,
            _ => value > 0,
        }
    }

    /// Performs the action on a control value: what it asks of the system.
    pub fn execute(&self, value: u8) -> (r: Effect)
        ensures
            r@ == self.effect(value),
    {
        if !self.should_execute(value) {
            return Effect::Nothing;
        }
        match self {
            Action::NoAction => Effect::Nothing,
            Action::SystemVolume => Effect::Run(execute_volume_change(value)),
            Action::Mute => Effect::Run(execute_mute_toggle()),
            Action::PlayPause => Effect::Media(MediaMethod::PlayPause),
            Action::CycleAudioOutput => Effect::CycleAudioOutput,
            Action::NextTrack => Effect::Media(MediaMethod::Next),
            Action::PreviousTrack => Effect::Media(MediaMethod::Previous),
            Action::Play => Effect::Media(MediaMethod::Play),
            Action::Pause => Effect::Media(MediaMethod::Pause),
        }
    }
}

impl From<u32> for Action {
    fn from(v: u32) -> (r: Action) {
        Action::from_index(v)
    }
}

impl vstd::std_specs::convert::FromSpecImpl<u32> for Action {
    open spec fn obeys_from_spec() -> bool {
        true
    }

    open spec fn from_spec(v: u32) -> Action {
        action_at(v as int)
    }
}

/// The number of an action picked from the list of all actions gives that action back.
pub proof fn lemma_index_round_trip(a: Action)
    ensures
        action_at(a.position() as int) == a,
        a.position() < Action::COUNT,
{
}

/// Performing an action does something exactly when the control value makes it run.
pub proof fn lemma_effect_when_runs(a: Action, value: u8)
    ensures
        (a.effect(value) is Nothing) <==> !a.runs_on(value),
{
}

/// What each action does for a control value: the volume is set on every value;
/// every other action does nothing on 0 (a released button), and on any pressed value
/// does the same as on any other: mute toggles the default output, the track and
/// playback actions send the player method of the same name, and cycling moves the
/// default output on.
pub proof fn lemma_action_effects(a: Action, v: u8)
    ensures
        Action::SystemVolume.effect(v) == EffectView::Run(volume_command(v)),
        Action::NoAction.effect(v) == EffectView::Nothing,
        v == 0 && a != Action::SystemVolume ==> a.effect(v) == EffectView::Nothing,
        v >= 1 && a != Action::SystemVolume ==> a.effect(v) == a.effect(1),
        v >= 1 ==> Action::Mute.effect(v) == EffectView::Run(mute_command()),
        v >= 1 ==> Action::PlayPause.effect(v) == EffectView::Media(MediaMethod::PlayPause),
        v >= 1 ==> Action::NextTrack.effect(v) == EffectView::Media(MediaMethod::Next),
        v >= 1 ==> Action::PreviousTrack.effect(v) == EffectView::Media(MediaMethod::Previous),
        v >= 1 ==> Action::Play.effect(v) == EffectView::Media(MediaMethod::Play),
        v >= 1 ==> Action::Pause.effect(v) == EffectView::Media(MediaMethod::Pause),
        v >= 1 ==> Action::CycleAudioOutput.effect(v) == EffectView::CycleAudioOutput,
{
}

/// The dropdown shows each action under its own name, and no two actions under
/// the same one.
pub proof fn lemma_labels(a: Action, b: Action)
    ensures
        Action::NoAction.label_text() == "None"@,
        Action::SystemVolume.label_text() == "System Volume"@,
        Action::Mute.label_text() == "Mute Toggle"@,
        Action::PlayPause.label_text() == "Play/Pause"@,
        Action::CycleAudioOutput.label_text() == "Cycle Audio Output"@,
        Action::NextTrack.label_text() == "Next Track"@,
        Action::PreviousTrack.label_text() == "Previous Track"@,
        Action::Play.label_text() == "Play"@,
        Action::Pause.label_text() == "Pause"@,
        a != b ==> a.label_text() != b.label_text(),
{
    reveal_strlit("None");
    reveal_strlit("System Volume");
    reveal_strlit("Mute Toggle");
    reveal_strlit("Play/Pause");
    reveal_strlit("Cycle Audio Output");
    reveal_strlit("Next Track");
    reveal_strlit("Previous Track");
    reveal_strlit("Play");
    reveal_strlit("Pause");
    if a != b {
        let x = a.label_text();
        let y = b.label_text();
        if x.len() == y.len() {
            assert(x[0] != y[0]);
        }
    }
}

/// The list of all actions holds each action at the position given by its number.
pub proof fn lemma_all_positions(i: int)
    requires
        0 <= i < Action::COUNT,
    ensures
        action_at(i).position() == i,
{
}

} // verus!
