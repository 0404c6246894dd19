//! What a server answers to a status request, and how it is shown.

use vstd::prelude::*;
use vstd::string::*;

use crate::text::{all_digits, decimal, decimal_value, lemma_decimal_digits, push_decimal};

verus! {

/// The answer to a status request.
#[derive(Debug)]
pub struct StatusResponse {
    pub description: Option<Description>,
    pub favicon: Option<String>,
    pub players: Option<Players>,
    pub version: ServerVersion,
}

/// The message of the day.
#[derive(Debug)]
pub enum Description {
    Simple(String),
    Colored { color: Option<String>, text: String },
}

/// Who is online.
#[derive(Debug)]
pub struct Players {
    pub max: u32,
    pub online: u32,
    pub sample: Option<Vec<Sample>>,
}

/// A player who is online.
#[derive(Debug)]
pub struct Sample {
    pub name: String,
    pub id: String,
}

/// The version a server runs.
#[derive(Debug)]
pub struct ServerVersion {
    pub name: String,
    pub protocol: i32,
}

/// A line of the report: a labelled field, or a player.
#[derive(Debug)]
pub enum ReportLine {
    /// `LABEL: VALUE`, with the label in bold.
    Field { label: &'static str, value: String },
    /// `NAME (ID)`.
    Player { name: String, id: String },
}

/// The message of the day as shown: its text, or `None` where there is none.
pub open spec fn motd_text(description: Option<Description>) -> Seq<char> {
    match description {
        None => "None"@,
        Some(Description::Simple(text)) => text@,
        Some(Description::Colored { text, .. }) => text@,
    }
}

/// The number of players online as shown: `???` where it is not given.
pub open spec fn player_count_text(players: Option<Players>) -> Seq<char> {
    match players {
        None => "???"@,
        Some(p) => decimal(p.online as nat),
    }
}

/// The players listed as online.
pub open spec fn sample_of(players: Option<Players>) -> Seq<Sample> {
    match players {
        Some(p) => match p.sample {
            Some(s) => s@,
            None => seq![],
        },
        None => seq![],
    }
}

/// What a report line says: a field's label and value, or a player's name and id.
pub open spec fn line_view(line: ReportLine) -> (bool, Seq<char>, Seq<char>) {
    match line {
        ReportLine::Field { label, value } => (true, label@, value@),
        ReportLine::Player { name, id } => (false, name@, id@),
    }
}

/// The report of an answer: the address, the message of the day where it is not empty, the
/// number of players online, then each player listed.
pub open spec fn report_spec(response: StatusResponse, address: Seq<char>) -> Seq<(bool, Seq<char>, Seq<char>)> {
    let motd = motd_text(response.description);
    seq![(true, "Server Address"@, address)] + (if motd.len() > 0 {
        seq![(true, "MOTD"@, motd)]
    } else {
        seq![]
    }) + seq![(true, "Players Online"@, player_count_text(response.players))] + sample_of(
        response.players,
    ).map_values(|s: Sample| (false, s.name@, s.id@))
}

/// Copies a text.
fn copy_text(s: &String) -> (copy: String)
    ensures
        copy@ == s@,
{
    String::from_str(s.as_str())
}

/// The lines shown for an answer from the server at `address`.
pub fn report_lines(response: &StatusResponse, address: &str) -> (lines: Vec<ReportLine>)
    ensures
        lines@.map_values(|l: ReportLine| line_view(l)) == report_spec(*response, address@),
{
    let motd = match &response.description {
        None => String::from_str("None"),
        Some(Description::Simple(text)) => copy_text(text),
        Some(Description::Colored { text, .. }) => copy_text(text),
    };
    let count = match &response.players {
        None => String::from_str("???"),
        Some(p) => {
            let mut text = String::new();
            push_decimal(&mut text, p.online as u64);
            text
        },
    };
    let mut lines: Vec<ReportLine> = Vec::new();
    lines.push(ReportLine::Field { label: "Server Address", value: String::from_str(address) });
    if motd.as_str().unicode_len() > 0 {
        lines.push(ReportLine::Field { label: "MOTD", value: motd });
    }
    lines.push(ReportLine::Field { label: "Players Online", value: count });
    let ghost head = lines@.map_values(|l: ReportLine| line_view(l));
    proof {
        let motd_s = motd_text(response.description);
        assert(head =~= seq![(true, "Server Address"@, address@)] + (if motd_s.len() > 0 {
            seq![(true, "MOTD"@, motd_s)]
        } else {
            seq![]
        }) + seq![(true, "Players Online"@, player_count_text(response.players))]);
    }
    let ghost sample = sample_of(response.players);
    let empty: Vec<Sample> = Vec::new();
    let players: &Vec<Sample> = match &response.players {
        Some(p) => match &p.sample {
            Some(s) => s,
            None => &empty,
        },
        None => &empty,
    };
    proof {
        assert(players@ =~= sample);
    }
    let mut i: usize = 0;
    while i < players.len()
        invariant
            players@ == sample,
            i <= sample.len(),
            lines@.map_values(|l: ReportLine| line_view(l)) == head + sample.take(i as int).map_values(
                |s: Sample| (false, s.name@, s.id@),
            ),
        decreases sample.len() - i,
    {
        let ghost before = lines@;
        let line = ReportLine::Player { name: copy_text(&players[i].name), id: copy_text(&players[i].id) };
        assert(line_view(line) == (false, sample[i as int].name@, sample[i as int].id@));
        lines.push(line);
        proof {
            assert(lines@.map_values(|l: ReportLine| line_view(l)) =~= before.map_values(
                |l: ReportLine| line_view(l),
            ).push(line_view(line)));
            assert(sample.take(i + 1) =~= sample.take(i as int).push(sample[i as int]));
            assert(lines@.map_values(|l: ReportLine| line_view(l)) =~= head + sample.take(i + 1).map_values(
                |s: Sample| (false, s.name@, s.id@),
            ));
        }
        i = i + 1;
    }
    proof {
        assert(sample.take(i as int) =~= sample);
    }
    lines
}

/// The host an SRV record points to, without the dots that end it.
pub open spec fn without_trailing_dots(s: Seq<char>) -> Seq<char>
    decreases s.len(),
{
    if s.len() > 0 && s.last() == '.' {
        without_trailing_dots(s.drop_last())
    } else {
        s
    }
}

/// Removes the dots that end a host name, as `trim_end_matches('.')` does.
pub fn trim_trailing_dots(host: &str) -> (trimmed: &str)
    ensures
        trimmed@ == without_trailing_dots(host@),
{
    let n = host.unicode_len();
    let mut end: usize = n;
    proof {
        assert(host@.take(n as int) =~= host@);
    }
    while end > 0 && host.get_char(end - 1) == '.'
        invariant
            n == host@.len(),
            end <= n,
            without_trailing_dots(host@) == without_trailing_dots(host@.take(end as int)),
        decreases end,
    {
        proof {
            assert(host@.take(end as int).drop_last() =~= host@.take(end - 1));
        }
        end = end - 1;
    }
    proof {
        assert(host@.take(n as int) =~= host@);
    }
    host.substring_char(0, end)
}

/// The port that Minecraft servers listen on unless told otherwise, where no SRV record is
/// found.
pub fn fallback_port() -> (port: u16)
    ensures
        port == 25565,
{
    25565
}

} // verus!

verus! {

/// Law: the report of an answer starts with the server's address; then comes the message of
/// the day, where it is not empty; then the number of players online, written in decimal digits
/// that read back as that number (or `???` where the answer gives none); then one line for each
/// player listed, with their name and id, in the order given.
pub proof fn law_report(response: StatusResponse, address: Seq<char>)
    ensures
        ({
            let r = report_spec(response, address);
            let motd = motd_text(response.description);
            let k: int = if motd.len() > 0 { 2 } else { 1 };
            &&& r[0] == (true, "Server Address"@, address)
            &&& motd.len() > 0 ==> r[1] == (true, "MOTD"@, motd)
            &&& r[k].0 && r[k].1 == "Players Online"@
            &&& response.players matches Some(p) ==> all_digits(r[k].2) && r[k].2.len() > 0
                && decimal_value(r[k].2) == p.online
            &&& response.players is None ==> r[k].2 == "???"@
            &&& r.len() == k + 1 + sample_of(response.players).len()
            &&& forall|i: int| 0 <= i < sample_of(response.players).len() ==> r[k + 1 + i] == (
                false,
                (#[trigger] sample_of(response.players)[i]).name@,
                sample_of(response.players)[i].id@,
            )
        }),
{
    match response.players {
        Some(p) => lemma_decimal_digits(p.online as nat),
        None => {},
    }
}

} // verus!
