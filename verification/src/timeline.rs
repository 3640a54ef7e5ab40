use vstd::prelude::*;
use vstd::string::*;

use crate::text::decimal_spec;
use crate::progression::ProgressionRecorder;
use crate::tile::{kind_name, TileCoord, TileKind};
use crate::world::{TileClicked, TilePlaced};

verus! {

/// The states of the game.
#[derive(Debug, Clone, Copy, PartialEq, Eq, Hash, Structural)]
pub enum GameState {
    AssetLoading,
    Playing,
}

/// The name under which a state is recorded.
pub open spec fn state_name(s: GameState) -> Seq<char> {
    match s {
        GameState::AssetLoading => "AssetLoading"@,
        GameState::Playing => "Playing"@,
    }
}

/// A hexadecimal digit in lower case.
pub open spec fn hex_digit(d: nat) -> char {
    if d < 10 {
        crate::text::digit_char(d)
    } else if d == 10 {
        'a'
    } else if d == 11 {
        'b'
    } else if d == 12 {
        'c'
    } else if d == 13 {
        'd'
    } else if d == 14 {
        'e'
    } else {
        'f'
    }
}

/// How one character stands inside a JSON string: quote and backslash escaped, the control
/// characters with a short escape where JSON has one and as `\u00xx` otherwise.
pub open spec fn json_char(c: char) -> Seq<char> {
    if c == '"' {
        seq!['\\', '"']
    } else if c == '\\' {
        seq!['\\', '\\']
    } else if c == '\u{8}' {
        seq!['\\', 'b']
    } else if c == '\u{c}' {
        seq!['\\', 'f']
    } else if c == '\n' {
        seq!['\\', 'n']
    } else if c == '\r' {
        seq!['\\', 'r']
    } else if c == '\t' {
        seq!['\\', 't']
    } else if (c as u32) < 0x20 {
        seq!['\\', 'u', '0', '0', hex_digit((c as u32 / 16) as nat), hex_digit((c as u32 % 16) as nat)]
    } else {
        seq![c]
    }
}

/// The escaped characters of a text.
pub open spec fn json_chars(s: Seq<char>) -> Seq<char>
    decreases s.len(),
{
    if s.len() == 0 {
        Seq::empty()
    } else {
        json_chars(s.drop_last()) + json_char(s.last())
    }
}

/// A text as a JSON string literal.
pub open spec fn json_string(s: Seq<char>) -> Seq<char> {
    seq!['"'] + json_chars(s) + seq!['"']
}

/// An integer as a JSON number.
pub open spec fn json_int(i: int) -> Seq<char> {
    if i < 0 {
        seq!['-'] + decimal_spec((-i) as nat)
    } else {
        decimal_spec(i as nat)
    }
}

/// A text as a JSON string literal, as serde_json writes it.
///
/// Trusted: calls `serde_json::to_string` on a `&str`. Its serializer (`format_escaped_str`)
/// writes a quote, the text with `"` and `\` escaped, the control characters `\u{8}`,
/// `\t`, `\n`, `\u{c}`, `\r` as short escapes and the other characters below `0x20` as
/// `\u00` and two lower-case hex digits, every other character unchanged, and a closing quote.
/// Serializing a string into memory cannot fail.
#[verifier::external_body]
fn serde_string(s: &str) -> (json: String)
    ensures
        json@ == json_string(s@),
{
    match serde_json::to_string(s) {
        Ok(json) => json,
        Err(_) => String::new(),
    }
}

/// An integer as a JSON number, as serde_json writes it.
///
/// Trusted: calls `serde_json::to_string` on an `i128`, which writes the decimal numeral with
/// a leading `-` for a negative value and no leading zeros. Serializing an integer into memory
/// cannot fail.
#[verifier::external_body]
fn serde_int(i: i128) -> (json: String)
    ensures
        json@ == json_int(i as int),
{
    match serde_json::to_string(&i) {
        Ok(json) => json,
        Err(_) => String::new(),
    }
}

/// Appends a text as a JSON string literal.
pub fn push_json_string(out: &mut String, s: &str)
    ensures
        final(out)@ == old(out)@ + json_string(s@),
{
    let json = serde_string(s);
    out.append(json.as_str());
}

/// Appends an integer as a JSON number.
pub fn push_json_int(out: &mut String, i: i128)
    ensures
        final(out)@ == old(out)@ + json_int(i as int),
{
    let json = serde_int(i);
    out.append(json.as_str());
}

/// What an entry of the timeline records.
pub enum TimelineData {
    /// No data: `{}`.
    Nothing,
    /// A change of the game's state.
    State { exited: Option<GameState>, entered: Option<GameState> },
    /// A hexagon.
    Coord { q: i32, r: i32 },
    /// A placed tile.
    Placed { q: i32, r: i32, kind: TileKind },
    /// The progression resources.
    Progression { xp: u32, xp_max: u32, skill_points: u32 },
    /// The end of the run: how the game exited and how many entries came before.
    RunEnd { exit: String, entries: u64 },
    /// Data written elsewhere as a JSON value, recorded as it is.
    Json(String),
}

/// An optional state as a JSON value: its name, or `null`.
pub open spec fn json_state(s: Option<GameState>) -> Seq<char> {
    match s {
        Some(s) => json_string(state_name(s)),
        None => "null"@,
    }
}

/// The data of an entry as a JSON object, its keys in sorted order.
pub open spec fn data_json(d: TimelineData) -> Seq<char> {
    match d {
        TimelineData::Nothing => "{}"@,
        TimelineData::State { exited, entered } => "{\"entered\":"@ + json_state(entered)
            + ",\"exited\":"@ + json_state(exited) + "}"@,
        TimelineData::Coord { q, r } => "{\"q\":"@ + json_int(q as int) + ",\"r\":"@ + json_int(r as int)
            + "}"@,
        TimelineData::Placed { q, r, kind } => "{\"kind\":"@ + json_string(kind_name(kind))
            + ",\"q\":"@ + json_int(q as int) + ",\"r\":"@ + json_int(r as int) + "}"@,
        TimelineData::Progression { xp, xp_max, skill_points } => "{\"skill_points\":"@
            + json_int(skill_points as int) + ",\"xp\":"@ + json_int(xp as int) + ",\"xp_max\":"@
            + json_int(xp_max as int) + "}"@,
        TimelineData::RunEnd { exit, entries } => "{\"entries\":"@ + json_int(entries as int)
            + ",\"exit\":"@ + json_string(exit@) + "}"@,
        TimelineData::Json(raw) => raw@,
    }
}

/// One line of the timeline: an object with the data (written as JSON), the frame, the kind of
/// entry and its name, keys in sorted order.
pub open spec fn entry_line(frame: u64, kind: Seq<char>, name: Seq<char>, data: Seq<char>) -> Seq<char> {
    "{\"data\":"@ + data + ",\"frame\":"@ + json_int(frame as int) + ",\"kind\":"@ + json_string(kind)
        + ",\"name\":"@ + json_string(name) + "}"@
}

/// The line of an entry with the given data.
pub open spec fn entry_json(frame: u64, kind: Seq<char>, name: Seq<char>, data: TimelineData) -> Seq<char> {
    entry_line(frame, kind, name, data_json(data))
}

fn push_state(out: &mut String, s: Option<GameState>)
    ensures
        final(out)@ == old(out)@ + json_state(s),
{
    match s {
        Some(GameState::AssetLoading) => push_json_string(out, "AssetLoading"),
        Some(GameState::Playing) => push_json_string(out, "Playing"),
        None => out.append("null"),
    }
}

fn push_data(out: &mut String, data: &TimelineData)
    ensures
        final(out)@ == old(out)@ + data_json(*data),
{
    let ghost start = out@;
    match data {
        TimelineData::Nothing => out.append("{}"),
        TimelineData::State { exited, entered } => {
            out.append("{\"entered\":");
            push_state(out, *entered);
            out.append(",\"exited\":");
            push_state(out, *exited);
            out.append("}");
        },
        TimelineData::Coord { q, r } => {
            out.append("{\"q\":");
            push_json_int(out, *q as i128);
            out.append(",\"r\":");
            push_json_int(out, *r as i128);
            out.append("}");
        },
        TimelineData::Placed { q, r, kind } => {
            out.append("{\"kind\":");
            push_json_string(out, kind.name());
            out.append(",\"q\":");
            push_json_int(out, *q as i128);
            out.append(",\"r\":");
            push_json_int(out, *r as i128);
            out.append("}");
        },
        TimelineData::Progression { xp, xp_max, skill_points } => {
            out.append("{\"skill_points\":");
            push_json_int(out, *skill_points as i128);
            out.append(",\"xp\":");
            push_json_int(out, *xp as i128);
            out.append(",\"xp_max\":");
            push_json_int(out, *xp_max as i128);
            out.append("}");
        },
        TimelineData::RunEnd { exit, entries } => {
            out.append("{\"entries\":");
            push_json_int(out, *entries as i128);
            out.append(",\"exit\":");
            push_json_string(out, exit.as_str());
            out.append("}");
        },
        TimelineData::Json(raw) => out.append(raw.as_str()),
    }
    assert(out@ =~= start + data_json(*data));
}

/// The run's timeline: the number of entries written so far. Each entry is one line of JSON.
pub struct ProbeTimeline {
    pub entries: u64,
}

impl ProbeTimeline {
    /// A timeline with no entries.
    pub fn create() -> (timeline: ProbeTimeline)
        ensures
            timeline.entries == 0,
    {
        ProbeTimeline { entries: 0 }
    }

    /// Records one entry: returns its line (without the line break) and counts it.
    pub fn record(&mut self, frame: u64, kind: &str, name: &str, data: &TimelineData) -> (line: String)
        requires
            old(self).entries < u64::MAX,
        ensures
            line@ == entry_json(frame, kind@, name@, *data),
            final(self).entries == old(self).entries + 1,
    {
        let mut line = String::from_str("{\"data\":");
        push_data(&mut line, data);
        line.append(",\"frame\":");
        push_json_int(&mut line, frame as i128);
        line.append(",\"kind\":");
        push_json_string(&mut line, kind);
        line.append(",\"name\":");
        push_json_string(&mut line, name);
        line.append("}");
        self.entries = self.entries + 1;
        line
    }
}

/// A placed tile finished its spawn animation.
#[derive(Debug, Clone, Copy, PartialEq, Eq, Structural)]
pub struct TileSettled {
    pub coord: TileCoord,
}

/// A change of the game's state.
#[derive(Debug, Clone, Copy, PartialEq, Eq, Structural)]
pub struct StateTransition {
    pub exited: Option<GameState>,
    pub entered: Option<GameState>,
}

/// The views of a list of lines.
pub open spec fn line_views(lines: Seq<String>) -> Seq<Seq<char>> {
    lines.map_values(|l: String| l@)
}

/// The entry of a tile click.
pub open spec fn click_entry(frame: u64, c: TileClicked) -> Seq<char> {
    entry_json(frame, "action"@, "tile_clicked"@, TimelineData::Coord { q: c.coord.q, r: c.coord.r })
}

/// The entry of a placed tile.
pub open spec fn placed_entry(frame: u64, p: TilePlaced) -> Seq<char> {
    entry_json(
        frame,
        "action"@,
        "tile_placed"@,
        TimelineData::Placed { q: p.coord.q, r: p.coord.r, kind: p.kind },
    )
}

/// The entry of a settled tile.
pub open spec fn settled_entry(frame: u64, t: TileSettled) -> Seq<char> {
    entry_json(frame, "animation"@, "tile_settled"@, TimelineData::Coord { q: t.coord.q, r: t.coord.r })
}

/// The entries of one frame's tile events: the clicks, then the placements, then the settled
/// tiles, each in order.
pub open spec fn tile_event_lines(
    frame: u64,
    clicks: Seq<TileClicked>,
    placements: Seq<TilePlaced>,
    settled: Seq<TileSettled>,
) -> Seq<Seq<char>> {
    clicks.map_values(|c: TileClicked| click_entry(frame, c)) + placements.map_values(
        |p: TilePlaced| placed_entry(frame, p),
    ) + settled.map_values(|t: TileSettled| settled_entry(frame, t))
}

/// The entry of a change of state.
pub open spec fn state_entry(frame: u64, t: StateTransition) -> Seq<char> {
    entry_json(
        frame,
        "state"@,
        "GameState"@,
        TimelineData::State { exited: t.exited, entered: t.entered },
    )
}

impl ProbeTimeline {
    /// Records the start of the run.
    pub fn record_start(&mut self, frame: u64) -> (line: String)
        requires
            old(self).entries < u64::MAX,
        ensures
            line@ == entry_json(frame, "run_start"@, "run"@, TimelineData::Nothing),
            final(self).entries == old(self).entries + 1,
    {
        self.record(frame, "run_start", "run", &TimelineData::Nothing)
    }

    /// Records each change of the game's state, in order.
    pub fn record_states(&mut self, frame: u64, transitions: &Vec<StateTransition>) -> (lines: Vec<String>)
        requires
            old(self).entries + transitions@.len() <= u64::MAX,
        ensures
            line_views(lines@) == transitions@.map_values(|t: StateTransition| state_entry(frame, t)),
            final(self).entries == old(self).entries + transitions@.len(),
    {
        let mut lines: Vec<String> = Vec::new();
        let mut i: usize = 0;
        while i < transitions.len()
            invariant
                i <= transitions@.len(),
                self.entries == old(self).entries + i,
                old(self).entries + transitions@.len() <= u64::MAX,
                line_views(lines@) == transitions@.take(i as int).map_values(
                    |t: StateTransition| state_entry(frame, t),
                ),
            decreases transitions@.len() - i,
        {
            let t = transitions[i];
            let line = self.record(
                frame,
                "state",
                "GameState",
                &TimelineData::State { exited: t.exited, entered: t.entered },
            );
            let ghost before = lines@;
            lines.push(line);
            proof {
                assert(line_views(lines@) =~= line_views(before).push(line@));
                assert(transitions@.take(i + 1).map_values(|t: StateTransition| state_entry(frame, t)) =~= transitions@.take(
                    i as int,
                ).map_values(|t: StateTransition| state_entry(frame, t)).push(state_entry(frame, transitions@[i as int])));
            }
            i = i + 1;
            assert(line_views(lines@) =~= transitions@.take(i as int).map_values(
                |t: StateTransition| state_entry(frame, t),
            ));
        }
        assert(transitions@.take(transitions@.len() as int) =~= transitions@);
        lines
    }

    /// Records one frame's tile events: clicks, then placements, then settled tiles.
    pub fn record_tile_events(
        &mut self,
        frame: u64,
        clicks: &Vec<TileClicked>,
        placements: &Vec<TilePlaced>,
        settled: &Vec<TileSettled>,
    ) -> (lines: Vec<String>)
        requires
            old(self).entries + clicks@.len() + placements@.len() + settled@.len() <= u64::MAX,
        ensures
            line_views(lines@) == tile_event_lines(frame, clicks@, placements@, settled@),
            final(self).entries == old(self).entries + clicks@.len() + placements@.len()
                + settled@.len(),
    {
        let ghost start = self.entries;
        let ghost total = clicks@.len() + placements@.len() + settled@.len();
        let mut lines: Vec<String> = Vec::new();
        let mut i: usize = 0;
        while i < clicks.len()
            invariant
                i <= clicks@.len(),
                self.entries == start + i,
                start + total <= u64::MAX,
                total == clicks@.len() + placements@.len() + settled@.len(),
                line_views(lines@) == clicks@.take(i as int).map_values(
                    |c: TileClicked| click_entry(frame, c),
                ),
            decreases clicks@.len() - i,
        {
            let c = clicks[i];
            let line = self.record(
                frame,
                "action",
                "tile_clicked",
                &TimelineData::Coord { q: c.coord.q, r: c.coord.r },
            );
            let ghost before = lines@;
            lines.push(line);
            proof {
                assert(line_views(lines@) =~= line_views(before).push(line@));
                assert(clicks@.take(i + 1).map_values(|c: TileClicked| click_entry(frame, c)) =~= clicks@.take(
                    i as int,
                ).map_values(|c: TileClicked| click_entry(frame, c)).push(click_entry(frame, clicks@[i as int])));
            }
            i = i + 1;
            assert(line_views(lines@) =~= clicks@.take(i as int).map_values(
                |c: TileClicked| click_entry(frame, c),
            ));
        }
        assert(clicks@.take(clicks@.len() as int) =~= clicks@);
        let ghost after_clicks = line_views(lines@);
        let mut j: usize = 0;
        while j < placements.len()
            invariant
                j <= placements@.len(),
                self.entries == start + clicks@.len() + j,
                start + total <= u64::MAX,
                total == clicks@.len() + placements@.len() + settled@.len(),
                line_views(lines@) == after_clicks + placements@.take(j as int).map_values(
                    |p: TilePlaced| placed_entry(frame, p),
                ),
            decreases placements@.len() - j,
        {
            let p = placements[j];
            let line = self.record(
                frame,
                "action",
                "tile_placed",
                &TimelineData::Placed { q: p.coord.q, r: p.coord.r, kind: p.kind },
            );
            let ghost before = lines@;
            lines.push(line);
            proof {
                assert(line_views(lines@) =~= line_views(before).push(line@));
                assert(placements@.take(j + 1).map_values(|p: TilePlaced| placed_entry(frame, p)) =~= placements@.take(
                    j as int,
                ).map_values(|p: TilePlaced| placed_entry(frame, p)).push(placed_entry(frame, placements@[j as int])));
            }
            j = j + 1;
            assert(line_views(lines@) =~= after_clicks + placements@.take(j as int).map_values(
                |p: TilePlaced| placed_entry(frame, p),
            ));
        }
        assert(placements@.take(placements@.len() as int) =~= placements@);
        let ghost after_placements = line_views(lines@);
        let mut k: usize = 0;
        while k < settled.len()
            invariant
                k <= settled@.len(),
                self.entries == start + clicks@.len() + placements@.len() + k,
                start + total <= u64::MAX,
                total == clicks@.len() + placements@.len() + settled@.len(),
                line_views(lines@) == after_placements + settled@.take(k as int).map_values(
                    |t: TileSettled| settled_entry(frame, t),
                ),
            decreases settled@.len() - k,
        {
            let t = settled[k];
            let line = self.record(
                frame,
                "animation",
                "tile_settled",
                &TimelineData::Coord { q: t.coord.q, r: t.coord.r },
            );
            let ghost before = lines@;
            lines.push(line);
            proof {
                assert(line_views(lines@) =~= line_views(before).push(line@));
                assert(settled@.take(k + 1).map_values(|t: TileSettled| settled_entry(frame, t)) =~= settled@.take(
                    k as int,
                ).map_values(|t: TileSettled| settled_entry(frame, t)).push(settled_entry(frame, settled@[k as int])));
            }
            k = k + 1;
            assert(line_views(lines@) =~= after_placements + settled@.take(k as int).map_values(
                |t: TileSettled| settled_entry(frame, t),
            ));
        }
        assert(settled@.take(settled@.len() as int) =~= settled@);
        assert(line_views(lines@) =~= tile_event_lines(frame, clicks@, placements@, settled@));
        lines
    }

    /// Records the progression resources when they differ from those recorded last.
    pub fn record_progression(
        &mut self,
        recorder: &mut ProgressionRecorder,
        frame: u64,
        xp: u32,
        xp_max: u32,
        skill_points: u32,
    ) -> (line: Option<String>)
        requires
            old(self).entries < u64::MAX,
        ensures
            final(recorder).previous == Some((xp, xp_max, skill_points)),
            (old(recorder).previous == Some((xp, xp_max, skill_points))) == (line is None),
            line matches Some(l) ==> l@ == entry_json(
                frame,
                "progression"@,
                "resources"@,
                TimelineData::Progression { xp, xp_max, skill_points },
            ),
            final(self).entries == old(self).entries + if line is Some { 1int } else { 0 },
    {
        if !recorder.observe((xp, xp_max, skill_points)) {
            return None;
        }
        Some(
            self.record(
                frame,
                "progression",
                "resources",
                &TimelineData::Progression { xp, xp_max, skill_points },
            ),
        )
    }

    /// Records the end of the run on the first exit request of the frame, with the number of
    /// entries written before it.
    pub fn record_end(&mut self, frame: u64, exits: &Vec<String>) -> (line: Option<String>)
        requires
            old(self).entries < u64::MAX,
        ensures
            (exits@.len() == 0) == (line is None),
            line matches Some(l) ==> l@ == entry_json(
                frame,
                "run_end"@,
                "run"@,
                TimelineData::RunEnd { exit: exits@[0], entries: old(self).entries },
            ),
            final(self).entries == old(self).entries + if line is Some { 1int } else { 0 },
    {
        if exits.len() == 0 {
            return None;
        }
        let entries = self.entries;
        let data = TimelineData::RunEnd { exit: exits[0].clone(), entries };
        Some(self.record(frame, "run_end", "run", &data))
    }

    /// Records a marker of a script, with its data as written JSON.
    pub fn marker(&mut self, frame: u64, name: &str, data: &str) -> (line: String)
        requires
            old(self).entries < u64::MAX,
        ensures
            line@ == entry_line(frame, "marker"@, name@, data@),
            final(self).entries == old(self).entries + 1,
    {
        let raw = data.to_owned();
        self.record(frame, "marker", name, &TimelineData::Json(raw))
    }
}

} // verus!
