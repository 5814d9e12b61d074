//! System audio: the volume, muting, and moving the default output on.
use vstd::prelude::*;

use crate::action::command::{strings_view, CommandView, ProcessCommand};
use crate::text::{
    all_digits, digits_value, lemma_decimal_reads_back, lemma_lines_append, split_on,
    chars_of, decimal, lines_of, pieces_view, push_decimal, second_field, second_field_of,
    string_from, text_lines, trim_bounds, trimmed,
};
use vstd::string::StringExecFns;

verus! {

/// The volume in percent for a control value: `value / 127 * 100`, rounded down,
/// so 0 gives 0 % and 127 gives 100 %.
pub open spec fn volume_of(value: u8) -> nat {
    (value as nat * 100) / 127
}

/// `pactl set-sink-volume @DEFAULT_SINK@ <volume>%`.
pub open spec fn volume_command(value: u8) -> CommandView {
    CommandView {
        program: "pactl"@,
        args: seq!["set-sink-volume"@, "@DEFAULT_SINK@"@, decimal(volume_of(value)) + "%"@],
    }
}

/// `pactl set-sink-mute @DEFAULT_SINK@ toggle`.
pub open spec fn mute_command() -> CommandView {
    CommandView { program: "pactl"@, args: seq!["set-sink-mute"@, "@DEFAULT_SINK@"@, "toggle"@] }
}

/// `pactl list short sinks`.
pub open spec fn list_sinks_view() -> CommandView {
    CommandView { program: "pactl"@, args: seq!["list"@, "short"@, "sinks"@] }
}

/// `pactl get-default-sink`.
pub open spec fn get_default_sink_view() -> CommandView {
    CommandView { program: "pactl"@, args: seq!["get-default-sink"@] }
}

/// `pactl set-default-sink <name>`.
pub open spec fn set_default_sink_view(name: Seq<char>) -> CommandView {
    CommandView { program: "pactl"@, args: seq!["set-default-sink"@, name] }
}

/// The sink names in the output of `pactl list short sinks`: the second
/// tab-separated field of each line that has one.
pub open spec fn sinks_in(listing: Seq<char>) -> Seq<Seq<char>> {
    text_lines(listing).filter_map(|l: Seq<char>| second_field(l))
}

/// The position of the first entry of `s` equal to `x`, if there is one.
pub open spec fn first_position(s: Seq<Seq<char>>, x: Seq<char>) -> Option<nat>
    decreases s.len(),
{
    if s.len() == 0 {
        None
    } else if s[0] == x {
        Some(0)
    } else {
        match first_position(s.drop_first(), x) {
            Some(i) => Some(i + 1),
            None => None,
        }
    }
}

/// The sink that comes after `current` in `sinks`, wrapping round at the end;
/// the first sink when `current` is not among them.
pub open spec fn next_sink(sinks: Seq<Seq<char>>, current: Seq<char>) -> nat {
    match first_position(sinks, current) {
        Some(i) => (i + 1) % sinks.len(),
        None => 0,
    }
}

proof fn lemma_first_position_found(s: Seq<Seq<char>>, x: Seq<char>, i: int)
    requires
        0 <= i < s.len(),
        s[i] == x,
        forall|k: int| 0 <= k < i ==> s[k] != x,
    ensures
        first_position(s, x) == Some(i as nat),
    decreases i,
{
    if i > 0 {
        assert(s[0] != x);
        lemma_first_position_found(s.drop_first(), x, i - 1);
    }
}

proof fn lemma_first_position_absent(s: Seq<Seq<char>>, x: Seq<char>)
    requires
        forall|k: int| 0 <= k < s.len() ==> s[k] != x,
    ensures
        first_position(s, x) is None,
    decreases s.len(),
{
    if s.len() > 0 {
        assert(s[0] != x);
        lemma_first_position_absent(s.drop_first(), x);
    }
}

/// The volume follows the control: a control at rest gives 0 %, a control at its
/// top (127) gives 100 %, every control value gives at most 100 %, and moving the
/// control up never lowers the volume.
pub proof fn lemma_volume_follows_control(a: u8, b: u8)
    ensures
        volume_of(0) == 0,
        volume_of(127) == 100,
        a <= 127 ==> volume_of(a) <= 100,
        a <= b ==> volume_of(a) <= volume_of(b),
{
    if a <= b {
        assert(a as nat * 100 <= b as nat * 100) by (nonlinear_arith)
            requires a <= b;
        vstd::arithmetic::div_mod::lemma_div_is_ordered(a as int * 100, b as int * 100, 127);
    }
}

/// Cycling moves the default output one place on in the list of outputs (with
/// distinct names), and from the last back to the first.
pub proof fn lemma_cycle_moves_on(sinks: Seq<Seq<char>>, i: int)
    requires
        0 <= i < sinks.len(),
        forall|j: int, k: int| 0 <= j < k < sinks.len() ==> sinks[j] != sinks[k],
    ensures
        next_sink(sinks, sinks[i]) == (if i + 1 == sinks.len() { 0 } else { i + 1 }),
{
    assert forall|k: int| 0 <= k < i implies sinks[k] != sinks[i] by {
        assert(sinks[k] != sinks[i]);
    }
    lemma_first_position_found(sinks, sinks[i], i);
    let n = sinks.len();
    if i + 1 == n {
        vstd::arithmetic::div_mod::lemma_mod_self_0(n as int);
    } else {
        vstd::arithmetic::div_mod::lemma_small_mod((i + 1) as nat, n);
    }
}

/// An output that is not in the list is followed by the first one.
pub proof fn lemma_cycle_unknown_output(sinks: Seq<Seq<char>>, current: Seq<char>)
    requires
        forall|k: int| 0 <= k < sinks.len() ==> sinks[k] != current,
    ensures
        next_sink(sinks, current) == 0,
{
    lemma_first_position_absent(sinks, current);
}

/// The default output after `k` rounds of cycling from the output `start`, where each
/// round reads the default back (white space around it ignored) and makes the output
/// after it the default, as `execute_cycle_audio` does.
pub open spec fn cycled(sinks: Seq<Seq<char>>, start: Seq<char>, k: nat) -> Seq<char>
    decreases k,
{
    if k == 0 {
        start
    } else {
        sinks[next_sink(sinks, trimmed(cycled(sinks, start, (k - 1) as nat))) as int]
    }
}

proof fn lemma_mod_window(x: int, n: int)
    requires
        n > 0,
        0 <= x < 2 * n,
    ensures
        x % n == (if x < n { x } else { x - n }),
{
    vstd::arithmetic::div_mod::lemma_fundamental_div_mod(x, n);
    vstd::arithmetic::div_mod::lemma_mod_bound(x, n);
    let q = x / n;
    let r = x % n;
    assert(r == (if x < n { x } else { x - n })) by (nonlinear_arith)
        requires
            x == n * q + r,
            0 <= r < n,
            0 <= x < 2 * n,
            n > 0,
    ;
}

/// After `k` rounds the default is the output `k` places on from output `i`, counting
/// round the list.
proof fn lemma_cycled_position(sinks: Seq<Seq<char>>, i: int, k: nat)
    requires
        0 <= i < sinks.len(),
        forall|j: int, l: int| 0 <= j < l < sinks.len() ==> sinks[j] != sinks[l],
        forall|j: int| 0 <= j < sinks.len() ==> #[trigger] trimmed(sinks[j]) == sinks[j],
    ensures
        cycled(sinks, sinks[i], k) == sinks[(i + k) % (sinks.len() as int)],
    decreases k,
{
    let n = sinks.len() as int;
    if k == 0 {
        vstd::arithmetic::div_mod::lemma_small_mod(i as nat, n as nat);
    } else {
        lemma_cycled_position(sinks, i, (k - 1) as nat);
        let m = (i + k - 1) % n;
        vstd::arithmetic::div_mod::lemma_mod_bound(i + k - 1, n);
        assert(trimmed(sinks[m]) == sinks[m]);
        lemma_cycle_moves_on(sinks, m);
        vstd::arithmetic::div_mod::lemma_add_mod_noop(i + k - 1, 1, n);
        if n == 1 {
            assert(m == 0);
            assert((i + k) % n == 0);
        } else {
            vstd::arithmetic::div_mod::lemma_small_mod(1, n as nat);
            lemma_mod_window(m + 1, n);
        }
    }
}

proof fn lemma_cycled_distinct(sinks: Seq<Seq<char>>, i: int, j: nat, l: nat)
    requires
        0 <= i < sinks.len(),
        forall|a: int, b: int| 0 <= a < b < sinks.len() ==> sinks[a] != sinks[b],
        forall|a: int| 0 <= a < sinks.len() ==> #[trigger] trimmed(sinks[a]) == sinks[a],
        1 <= j < l <= sinks.len(),
    ensures
        cycled(sinks, sinks[i], j) != cycled(sinks, sinks[i], l),
{
    let n = sinks.len() as int;
    lemma_cycled_position(sinks, i, j);
    lemma_cycled_position(sinks, i, l);
    lemma_mod_window(i + j, n);
    lemma_mod_window(i + l, n);
    let a = (i + j) % n;
    let b = (i + l) % n;
    assert(a != b);
    if a < b {
        assert(sinks[a] != sinks[b]);
    } else {
        assert(sinks[b] != sinks[a]);
    }
}

proof fn lemma_cycled_reaches(sinks: Seq<Seq<char>>, i: int, t: int) -> (j: nat)
    requires
        0 <= i < sinks.len(),
        0 <= t < sinks.len(),
        forall|a: int, b: int| 0 <= a < b < sinks.len() ==> sinks[a] != sinks[b],
        forall|a: int| 0 <= a < sinks.len() ==> #[trigger] trimmed(sinks[a]) == sinks[a],
    ensures
        1 <= j <= sinks.len(),
        cycled(sinks, sinks[i], j) == sinks[t],
{
    let n = sinks.len() as int;
    let j: nat = if t > i { (t - i) as nat } else { (t - i + n) as nat };
    lemma_cycled_position(sinks, i, j);
    lemma_mod_window(i + j, n);
    j
}

/// Cycling through outputs with distinct names, each of which reads back as it is
/// named (no white space around it): starting from output `i`, `k` rounds make the
/// output `k` places on (round the list) the default; the `n` rounds after the start
/// make each of the `n` outputs the default exactly once, and the `n`-th round gives
/// back the output cycling started from.
pub proof fn lemma_cycle_visits_all(sinks: Seq<Seq<char>>, i: int)
    requires
        0 <= i < sinks.len(),
        forall|j: int, l: int| 0 <= j < l < sinks.len() ==> sinks[j] != sinks[l],
        forall|j: int| 0 <= j < sinks.len() ==> #[trigger] trimmed(sinks[j]) == sinks[j],
    ensures
        forall|k: nat| #[trigger] cycled(sinks, sinks[i], k) == sinks[(i + k) % (sinks.len() as int)],
        cycled(sinks, sinks[i], sinks.len()) == sinks[i],
        forall|j: nat, l: nat|
            1 <= j < l <= sinks.len() ==> #[trigger] cycled(sinks, sinks[i], j) != #[trigger] cycled(
                sinks,
                sinks[i],
                l,
            ),
        forall|t: int|
            #![trigger sinks[t]]
            0 <= t < sinks.len() ==> exists|j: nat|
                1 <= j <= sinks.len() && #[trigger] cycled(sinks, sinks[i], j) == sinks[t],
{
    let n = sinks.len() as int;
    assert forall|k: nat| #[trigger] cycled(sinks, sinks[i], k) == sinks[(i + k) % n] by {
        lemma_cycled_position(sinks, i, k);
    }
    assert(cycled(sinks, sinks[i], sinks.len()) == sinks[i]) by {
        lemma_cycled_position(sinks, i, sinks.len());
        lemma_mod_window(i + n, n);
    }
    assert forall|j: nat, l: nat| 1 <= j < l <= n implies #[trigger] cycled(sinks, sinks[i], j)
        != #[trigger] cycled(sinks, sinks[i], l) by {
        lemma_cycled_distinct(sinks, i, j, l);
    }
    assert forall|t: int| #![trigger sinks[t]] 0 <= t < n implies exists|j: nat|
        1 <= j <= n && #[trigger] cycled(sinks, sinks[i], j) == sinks[t] by {
        let j = lemma_cycled_reaches(sinks, i, t);
    }
}

/// A string from a literal.
fn lit(s: &str) -> (r: String)
    ensures
        r@ == s@,
{
    String::from_str(s)
}

/// The volume in percent for the control value `value`.
pub fn volume_percent(value: u8) -> (r: u32)
    ensures
        r == volume_of(value),
{
    (value as u32) * 100 / 127
}

/// The command that sets the system volume from a control value.
pub fn execute_volume_change(value: u8) -> (r: ProcessCommand)
    ensures
        r@ == volume_command(value),
{
    let volume = volume_percent(value);
    let mut amount = String::new();
    push_decimal(&mut amount, volume);
    amount.append("%");
    let mut args: Vec<String> = Vec::new();
    args.push(lit("set-sink-volume"));
    args.push(lit("@DEFAULT_SINK@"));
    args.push(amount);
    let r = ProcessCommand { program: lit("pactl"), args };
    assert(r@.args =~= volume_command(value).args);
    r
}

/// The command that toggles muting of the default output.
pub fn execute_mute_toggle() -> (r: ProcessCommand)
    ensures
        r@ == mute_command(),
{
    let mut args: Vec<String> = Vec::new();
    args.push(lit("set-sink-mute"));
    args.push(lit("@DEFAULT_SINK@"));
    args.push(lit("toggle"));
    let r = ProcessCommand { program: lit("pactl"), args };
    assert(r@.args =~= mute_command().args);
    r
}

/// The command that lists the audio outputs.
pub fn list_sinks_command() -> (r: ProcessCommand)
    ensures
        r@ == list_sinks_view(),
{
    let mut args: Vec<String> = Vec::new();
    args.push(lit("list"));
    args.push(lit("short"));
    args.push(lit("sinks"));
    let r = ProcessCommand { program: lit("pactl"), args };
    assert(r@.args =~= list_sinks_view().args);
    r
}

/// The command that prints the default audio output.
pub fn get_default_sink_command() -> (r: ProcessCommand)
    ensures
        r@ == get_default_sink_view(),
{
    let mut args: Vec<String> = Vec::new();
    args.push(lit("get-default-sink"));
    let r = ProcessCommand { program: lit("pactl"), args };
    assert(r@.args =~= get_default_sink_view().args);
    r
}

/// The sink names in the output of `pactl list short sinks`.
pub fn sink_names(listing: &str) -> (r: Vec<String>)
    ensures
        strings_view(r@) == sinks_in(listing@),
{
    let chars = chars_of(listing);
    let lines = lines_of(&chars);
    let ghost lv = text_lines(listing@);
    let ghost f = |l: Seq<char>| second_field(l);
    let mut out: Vec<String> = Vec::new();
    let mut k: usize = 0;
    assert(lv.take(0) =~= Seq::<Seq<char>>::empty());
    while k < lines.len()
        invariant
            k <= lines.len(),
            pieces_view(lines@) == lv,
            f == (|l: Seq<char>| second_field(l)),
            strings_view(out@) == lv.take(k as int).filter_map(f),
        decreases lines.len() - k,
    {
        assert(lines@[k as int]@ == lv[k as int]);
        assert(lv.take(k + 1).drop_last() =~= lv.take(k as int));
        assert(lv.take(k + 1).last() == lv[k as int]);
        let field = second_field_of(&lines[k]);
        let ghost before = out@;
        match field {
            Some(f_chars) => {
                let name = string_from(&f_chars, 0, f_chars.len());
                assert(name@ =~= f_chars@);
                out.push(name);
                assert(strings_view(out@) =~= strings_view(before) + seq![f_chars@]);
            },
            None => {},
        }
        k = k + 1;
    }
    assert(lv.take(lines.len() as int) =~= lv);
    out
}

/// The position in `sinks` of the output that follows the one `current_output`
/// names (the text `pactl get-default-sink` printed, white space around it ignored).
pub fn next_sink_index(sinks: &Vec<String>, current_output: &str) -> (r: usize)
    requires
        sinks.len() > 0,
    ensures
        r == next_sink(strings_view(sinks@), trimmed(current_output@)),
        r < sinks.len(),
{
    let chars = chars_of(current_output);
    let (a, b) = trim_bounds(&chars);
    let current = string_from(&chars, a, b);
    let ghost sv = strings_view(sinks@);
    let mut i: usize = 0;
    while i < sinks.len()
        invariant
            i <= sinks.len(),
            sv == strings_view(sinks@),
            current@ == trimmed(current_output@),
            forall|k: int| 0 <= k < i ==> sv[k] != current@,
        decreases sinks.len() - i,
    {
        if sinks[i] == current {
            proof {
                lemma_first_position_found(sv, current@, i as int);
            }
            return (i + 1) % sinks.len();
        }
        i = i + 1;
    }
    proof {
        lemma_first_position_absent(sv, current@);
    }
    0
}

/// The command that makes the output after the current one the default.
pub fn execute_cycle_audio(sinks: &Vec<String>, current_output: &str) -> (r: ProcessCommand)
    requires
        sinks.len() > 0,
    ensures
        r@ == set_default_sink_view(
            strings_view(sinks@)[next_sink(strings_view(sinks@), trimmed(current_output@)) as int],
        ),
{
    let next = next_sink_index(sinks, current_output);
    let mut args: Vec<String> = Vec::new();
    args.push(lit("set-default-sink"));
    args.push(sinks[next].clone());
    let r = ProcessCommand { program: lit("pactl"), args };
    assert(r@.args =~= set_default_sink_view(strings_view(sinks@)[next as int]).args);
    r
}

/// Whether cycling has outputs to move between: the listing of outputs could be
/// read and names at least one. Only then is the current default asked for.
pub fn cycle_audio_has_outputs(listing: Option<&str>) -> (r: bool)
    ensures
        r == (listing is Some && sinks_in(listing->0@).len() > 0),
{
    match listing {
        Some(l) => sink_names(l).len() > 0,
        None => false,
    }
}

/// The command that one round of cycling issues, given what `pactl list short sinks`
/// and `pactl get-default-sink` printed (`None` where the tool could not be run):
/// nothing when the listing could not be read or names no output, or when the current
/// default could not be read; otherwise the command that makes the output after the
/// current one the default.
pub fn cycle_audio_command(listing: Option<&str>, current_output: Option<&str>) -> (r: Option<
    ProcessCommand,
>)
    ensures
        r is Some <==> (listing is Some && current_output is Some && sinks_in(listing->0@).len()
            > 0),
        r matches Some(c) ==> c@ == set_default_sink_view(
            sinks_in(listing->0@)[next_sink(
                sinks_in(listing->0@),
                trimmed(current_output->0@),
            ) as int],
        ),
{
    match listing {
        None => None,
        Some(l) => {
            let sinks = sink_names(l);
            if sinks.len() == 0 {
                return None;
            }
            match current_output {
                None => None,
                Some(c) => Some(execute_cycle_audio(&sinks, c)),
            }
        },
    }
}

/// The volume command sets the default output's volume in percent: its last
/// argument is the decimal digits of `value * 100 / 127` followed by one `%`.
pub proof fn lemma_volume_argument(value: u8)
    ensures
        volume_command(value).program == "pactl"@,
        volume_command(value).args.len() == 3,
        volume_command(value).args[0] == "set-sink-volume"@,
        volume_command(value).args[1] == "@DEFAULT_SINK@"@,
        volume_command(value).args[2].len() >= 2,
        volume_command(value).args[2].last() == '%',
        all_digits(volume_command(value).args[2].drop_last()),
        digits_value(volume_command(value).args[2].drop_last()) == (value as nat * 100) / 127,
{
    reveal_strlit("%");
    let d = decimal(volume_of(value));
    lemma_decimal_reads_back(volume_of(value));
    let a = d + "%"@;
    assert(a.drop_last() =~= d);
    assert(a.last() == '%');
}

/// The other `pactl` commands: muting toggles the default output; cycling lists
/// the outputs briefly, asks for the default one, and makes the chosen one the default.
pub proof fn lemma_pactl_commands(name: Seq<char>)
    ensures
        mute_command().program == "pactl"@,
        mute_command().args == seq!["set-sink-mute"@, "@DEFAULT_SINK@"@, "toggle"@],
        list_sinks_view().program == "pactl"@,
        list_sinks_view().args == seq!["list"@, "short"@, "sinks"@],
        get_default_sink_view().program == "pactl"@,
        get_default_sink_view().args == seq!["get-default-sink"@],
        set_default_sink_view(name).program == "pactl"@,
        set_default_sink_view(name).args == seq!["set-default-sink"@, name],
{
}

/// Every listed output counts: appending to a listing (empty, or ending with a line
/// ending) one more line appends that line's sink name to the sinks when the line
/// has a second tab-separated field, and leaves the sinks as they were when not.
pub proof fn lemma_sinks_append_line(l: Seq<char>, line: Seq<char>)
    requires
        l.len() == 0 || l.last() == '\n',
        forall|i: int| 0 <= i < line.len() ==> line[i] != '\n',
        line.len() > 0,
        line.last() != '\r',
    ensures
        sinks_in((l + line).push('\n')) == (match second_field(line) {
            Some(name) => sinks_in(l).push(name),
            None => sinks_in(l),
        }),
{
    lemma_lines_append(l, line);
    let f = |x: Seq<char>| second_field(x);
    let t = text_lines(l);
    assert(t.push(line).drop_last() =~= t);
    assert(t.push(line).last() == line);
    match second_field(line) {
        Some(name) => {
            assert(t.push(line).filter_map(f) =~= t.filter_map(f).push(name));
        },
        None => {},
    }
}

/// A line with a second tab-separated field is never empty, so the append law
/// above covers every line that names a sink.
pub proof fn lemma_sink_line_nonempty(line: Seq<char>)
    requires
        second_field(line) is Some,
    ensures
        line.len() > 0,
{
    if line.len() == 0 {
        assert(split_on(line, '\t') == seq![Seq::<char>::empty()]);
    }
}

} // verus!
