//! Media player control: a method sent to every MPRIS player over D-Bus with `qdbus`.
use vstd::prelude::*;

use crate::action::command::{commands_view, strings_view, CommandView, ProcessCommand};
use crate::text::{lemma_lines_append, chars_of, contains_chars, contains_text, lines_of, pieces_view, string_from, text_lines, trim_bounds, trimmed};
use vstd::string::StringExecFns;

verus! {

/// The methods of the MPRIS player interface that the actions use.
#[derive(Debug, Clone, Copy, PartialEq, Eq, Structural)]
pub enum MediaMethod {
    PlayPause,
    Next,
    Previous,
    Play,
    Pause,
}

impl MediaMethod {
    /// The D-Bus name of the method.
    pub open spec fn method_name(self) -> Seq<char> {
        match self {
            MediaMethod::PlayPause => "PlayPause"@,
            MediaMethod::Next => "Next"@,
            MediaMethod::Previous => "Previous"@,
            MediaMethod::Play => "Play"@,
            MediaMethod::Pause => "Pause"@,
        }
    }

    /// The D-Bus name of the method.
    pub fn name(&self) -> (r: &'static str)
        ensures
            r@ == self.method_name(),
    {
        match self {
            MediaMethod::PlayPause => "PlayPause",
            MediaMethod::Next => "Next",
            MediaMethod::Previous => "Previous",
            MediaMethod::Play => "Play",
            MediaMethod::Pause => "Pause",
        }
    }
}

/// A line of the `qdbus` service list that names an MPRIS player gives the
/// player's bus name, trimmed.
pub open spec fn player_of_line(l: Seq<char>) -> Option<Seq<char>> {
    if contains_text(l, "org.mpris.MediaPlayer2"@) {
        Some(trimmed(l))
    } else {
        None
    }
}

/// The MPRIS players in the output of `qdbus`.
pub open spec fn players_in(listing: Seq<char>) -> Seq<Seq<char>> {
    text_lines(listing).filter_map(|l: Seq<char>| player_of_line(l))
}

/// `qdbus <player> /org/mpris/MediaPlayer2 org.mpris.MediaPlayer2.Player.<method>`.
pub open spec fn player_command(player: Seq<char>, method: Seq<char>) -> CommandView {
    CommandView {
        program: "qdbus"@,
        args: seq![player, "/org/mpris/MediaPlayer2"@, "org.mpris.MediaPlayer2.Player."@ + method],
    }
}

/// The commands that send `method` to every player in the `qdbus` output.
pub open spec fn media_commands(listing: Seq<char>, method: Seq<char>) -> Seq<CommandView> {
    players_in(listing).map_values(|p: Seq<char>| player_command(p, method))
}

/// `qdbus` with no arguments: the list of services on the session bus.
pub open spec fn player_query_view() -> CommandView {
    CommandView { program: "qdbus"@, args: Seq::empty() }
}

/// The command that lists the services on the session bus.
pub fn player_query_command() -> (r: ProcessCommand)
    ensures
        r@ == player_query_view(),
{
    let r = ProcessCommand { program: String::from_str("qdbus"), args: Vec::new() };
    assert(r@.args =~= Seq::<Seq<char>>::empty());
    r
}

/// The MPRIS players in the output of `qdbus`.
pub fn mpris_players(listing: &str) -> (r: Vec<String>)
    ensures
        strings_view(r@) == players_in(listing@),
{
    let chars = chars_of(listing);
    let lines = lines_of(&chars);
    let marker = chars_of("org.mpris.MediaPlayer2");
    let ghost lv = text_lines(listing@);
    let ghost f = |l: Seq<char>| player_of_line(l);
    let mut out: Vec<String> = Vec::new();
    let mut k: usize = 0;
    assert(lv.take(0) =~= Seq::<Seq<char>>::empty());
    while k < lines.len()
        invariant
            k <= lines.len(),
            pieces_view(lines@) == lv,
            marker@ == "org.mpris.MediaPlayer2"@,
            f == (|l: Seq<char>| player_of_line(l)),
            strings_view(out@) == lv.take(k as int).filter_map(f),
        decreases lines.len() - k,
    {
        assert(lines@[k as int]@ == lv[k as int]);
        assert(lv.take(k + 1).drop_last() =~= lv.take(k as int));
        assert(lv.take(k + 1).last() == lv[k as int]);
        let ghost before = out@;
        if contains_chars(&lines[k], &marker) {
            let (a, b) = trim_bounds(&lines[k]);
            let player = string_from(&lines[k], a, b);
            out.push(player);
            assert(strings_view(out@) =~= strings_view(before) + seq![trimmed(lv[k as int])]);
        }
        k = k + 1;
    }
    assert(lv.take(lines.len() as int) =~= lv);
    out
}

/// The commands that send the method named `action` to every MPRIS player in
/// the output of `qdbus`.
pub fn execute_media_command(listing: &str, action: &str) -> (r: Vec<ProcessCommand>)
    ensures
        commands_view(r@) == media_commands(listing@, action@),
{
    let players = mpris_players(listing);
    let ghost pv = players_in(listing@);
    let mut out: Vec<ProcessCommand> = Vec::new();
    let mut k: usize = 0;
    while k < players.len()
        invariant
            k <= players.len(),
            strings_view(players@) == pv,
            commands_view(out@) == pv.take(k as int).map_values(
                |p: Seq<char>| player_command(p, action@),
            ),
        decreases players.len() - k,
    {
        let mut method = String::from_str("org.mpris.MediaPlayer2.Player.");
        method.append(action);
        let mut args: Vec<String> = Vec::new();
        args.push(players[k].clone());
        args.push(String::from_str("/org/mpris/MediaPlayer2"));
        args.push(method);
        let c = ProcessCommand { program: String::from_str("qdbus"), args };
        assert(c@.args =~= player_command(pv[k as int], action@).args);
        let ghost before = out@;
        out.push(c);
        assert(commands_view(out@) =~= commands_view(before).push(c@));
        assert(pv.take(k + 1) =~= pv.take(k as int).push(pv[k as int]));
        assert(commands_view(out@) =~= pv.take(k + 1).map_values(
            |p: Seq<char>| player_command(p, action@),
        ));
        k = k + 1;
    }
    assert(pv.take(players.len() as int) =~= pv);
    out
}

/// Play/pause on every player in the `qdbus` output.
pub fn execute_play_pause(listing: &str) -> (r: Vec<ProcessCommand>)
    ensures
        commands_view(r@) == media_commands(listing@, "PlayPause"@),
{
    execute_media_command(listing, "PlayPause")
}

/// Next track on every player in the `qdbus` output.
pub fn execute_next_track(listing: &str) -> (r: Vec<ProcessCommand>)
    ensures
        commands_view(r@) == media_commands(listing@, "Next"@),
{
    execute_media_command(listing, "Next")
}

/// Previous track on every player in the `qdbus` output.
pub fn execute_previous_track(listing: &str) -> (r: Vec<ProcessCommand>)
    ensures
        commands_view(r@) == media_commands(listing@, "Previous"@),
{
    execute_media_command(listing, "Previous")
}

/// Play on every player in the `qdbus` output.
pub fn execute_play(listing: &str) -> (r: Vec<ProcessCommand>)
    ensures
        commands_view(r@) == media_commands(listing@, "Play"@),
{
    execute_media_command(listing, "Play")
}

/// Pause on every player in the `qdbus` output.
pub fn execute_pause(listing: &str) -> (r: Vec<ProcessCommand>)
    ensures
        commands_view(r@) == media_commands(listing@, "Pause"@),
{
    execute_media_command(listing, "Pause")
}

/// The commands that carry out `method` on every player in the `qdbus` output.
pub fn execute_media(method: MediaMethod, listing: &str) -> (r: Vec<ProcessCommand>)
    ensures
        commands_view(r@) == media_commands(listing@, method.method_name()),
{
    match method {
        MediaMethod::PlayPause => execute_play_pause(listing),
        MediaMethod::Next => execute_next_track(listing),
        MediaMethod::Previous => execute_previous_track(listing),
        MediaMethod::Play => execute_play(listing),
        MediaMethod::Pause => execute_pause(listing),
    }
}

/// Each media method is sent as the MPRIS player method of the same name, and
/// different methods are sent as different names.
pub proof fn lemma_method_names(a: MediaMethod, b: MediaMethod)
    ensures
        MediaMethod::PlayPause.method_name() == "PlayPause"@,
        MediaMethod::Next.method_name() == "Next"@,
        MediaMethod::Previous.method_name() == "Previous"@,
        MediaMethod::Play.method_name() == "Play"@,
        MediaMethod::Pause.method_name() == "Pause"@,
        a != b ==> a.method_name() != b.method_name(),
{
    reveal_strlit("PlayPause");
    reveal_strlit("Next");
    reveal_strlit("Previous");
    reveal_strlit("Play");
    reveal_strlit("Pause");
    if a != b {
        let x = a.method_name();
        let y = b.method_name();
        if x.len() == y.len() {
            assert(x[0] != y[0] || x[1] != y[1]);
        }
    }
}

/// Sending a method asks every listed player, in order, one command each:
/// `qdbus <player> /org/mpris/MediaPlayer2 org.mpris.MediaPlayer2.Player.<name>`,
/// where the name is the one the method stands for.
pub proof fn lemma_media_commands(listing: Seq<char>, m: MediaMethod, k: int)
    requires
        0 <= k < players_in(listing).len(),
    ensures
        media_commands(listing, m.method_name()).len() == players_in(listing).len(),
        media_commands(listing, m.method_name())[k].program == "qdbus"@,
        media_commands(listing, m.method_name())[k].args == seq![
            players_in(listing)[k],
            "/org/mpris/MediaPlayer2"@,
            "org.mpris.MediaPlayer2.Player."@ + match m {
                MediaMethod::PlayPause => "PlayPause"@,
                MediaMethod::Next => "Next"@,
                MediaMethod::Previous => "Previous"@,
                MediaMethod::Play => "Play"@,
                MediaMethod::Pause => "Pause"@,
            },
        ],
{
    lemma_method_names(m, m);
}

/// Every listed player counts: appending to a listing (empty, or ending with a line
/// ending) one more line adds that line, trimmed, to the players when it names an
/// MPRIS player, and leaves the players as they were when not.
pub proof fn lemma_players_append_line(l: Seq<char>, line: Seq<char>)
    requires
        l.len() == 0 || l.last() == '\n',
        forall|i: int| 0 <= i < line.len() ==> line[i] != '\n',
        line.len() > 0,
        line.last() != '\r',
    ensures
        players_in((l + line).push('\n')) == (if contains_text(line, "org.mpris.MediaPlayer2"@) {
            players_in(l).push(trimmed(line))
        } else {
            players_in(l)
        }),
{
    lemma_lines_append(l, line);
    let f = |x: Seq<char>| player_of_line(x);
    let t = text_lines(l);
    assert(t.push(line).drop_last() =~= t);
    assert(t.push(line).last() == line);
    if contains_text(line, "org.mpris.MediaPlayer2"@) {
        assert(t.push(line).filter_map(f) =~= t.filter_map(f).push(trimmed(line)));
    }
}

} // verus!
