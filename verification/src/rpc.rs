//! Discord rich presence: reading Roblox's log lines and the BloxstrapRPC messages in them.
use vstd::prelude::*;
use crate::text::{
    concat, contains, contains_spec, decimal, decimal_string, find, first_match, copy_str, from_chars, matches_at,
    lemma_first_match_unique, str_eq, to_chars,
};

verus! {

/// The tag that precedes a BloxstrapRPC message in Roblox's log.
pub open spec fn rpc_marker() -> Seq<char> {
    "[BloxstrapRPC] "@
}

/// The log text that says the user has left a game.
pub open spec fn game_leave_marker() -> Seq<char> {
    "leaveUGCGameInternal"@
}

/// The second piece of `line` when split at `pat`: the text after the first occurrence of
/// `pat`, up to the next occurrence (or the end).
pub open spec fn second_piece(line: Seq<char>, pat: Seq<char>) -> Seq<char> {
    let rest = line.skip(first_match(line, pat) + pat.len());
    if contains_spec(rest, pat) {
        rest.take(first_match(rest, pat))
    } else {
        rest
    }
}

/// What a line of Roblox's log asks of the rich presence.
pub enum LogLine {
    /// A BloxstrapRPC message, with its JSON text.
    Rpc(String),
    /// The user has left a game: the presence goes back to its default.
    GameLeave,
    /// Anything else.
    Other,
}

/// The characters `v[from..to]`.
fn sub_chars(v: &Vec<char>, from: usize, to: usize) -> (res: Vec<char>)
    requires
        from <= to <= v@.len(),
    ensures
        res@ == v@.subrange(from as int, to as int),
{
    let mut res: Vec<char> = Vec::new();
    let mut i = from;
    while i < to
        invariant
            from <= i <= to <= v@.len(),
            res@ == v@.subrange(from as int, i as int),
        decreases to - i,
    {
        res.push(v[i]);
        i = i + 1;
        assert(res@ =~= v@.subrange(from as int, i as int));
    }
    res
}

/// What the log line `line` asks: a BloxstrapRPC message where it holds `[BloxstrapRPC] `,
/// else a reset where it says the user left a game.
pub fn classify_log_line(line: &str) -> (res: LogLine)
    ensures
        match res {
            LogLine::Rpc(payload) => contains_spec(line@, rpc_marker()) && payload@ == second_piece(line@, rpc_marker()),
            LogLine::GameLeave => !contains_spec(line@, rpc_marker()) && contains_spec(line@, game_leave_marker()),
            LogLine::Other => !contains_spec(line@, rpc_marker()) && !contains_spec(line@, game_leave_marker()),
        },
{
    let chars = to_chars(line);
    let marker = to_chars("[BloxstrapRPC] ");
    match find(&chars, &marker) {
        Some(i) => {
            proof {
                lemma_first_match_unique(line@, rpc_marker(), i as int);
            }
            assert(matches_at(chars@, marker@, i as int));
            assert(i + marker@.len() <= chars@.len());
            let clen = chars.len();
            assert(clen == chars@.len());
            let mlen = marker.len();
            assert(mlen == marker@.len());
            let start = i + mlen;
            let rest = sub_chars(&chars, start, chars.len());
            assert(rest@ =~= line@.skip(first_match(line@, rpc_marker()) + rpc_marker().len()));
            let payload = match find(&rest, &marker) {
                Some(j) => {
                    proof {
                        lemma_first_match_unique(rest@, rpc_marker(), j as int);
                    }
                    let piece = sub_chars(&rest, 0, j);
                    assert(piece@ =~= rest@.take(j as int));
                    from_chars(&piece)
                },
                None => from_chars(&rest),
            };
            LogLine::Rpc(payload)
        },
        None => {
            if contains(line, "leaveUGCGameInternal") {
                LogLine::GameLeave
            } else {
                LogLine::Other
            }
        },
    }
}

/// An image of a BloxstrapRPC message.
pub struct RichPresenceImage {
    pub asset_id: Option<i64>,
    pub hover_text: Option<String>,
    pub clear: bool,
    pub reset: bool,
}

/// The presence that a BloxstrapRPC message sets.
pub struct RichPresenceData {
    pub state: Option<String>,
    pub details: Option<String>,
    pub time_start: Option<i64>,
    pub time_end: Option<i64>,
    pub small_image: Option<RichPresenceImage>,
    pub large_image: Option<RichPresenceImage>,
}

/// A BloxstrapRPC message.
pub struct RichPresence {
    pub command: Option<String>,
    pub data: Option<RichPresenceData>,
}

/// An image of the presence shown: its address and hover text, where they are set.
pub struct PresenceImage {
    pub url: Option<String>,
    pub text: Option<String>,
}

/// The presence to show.
pub struct PresenceUpdate {
    pub state: Option<String>,
    pub details: Option<String>,
    /// When the activity started, in milliseconds since the epoch; absent where an end is shown instead.
    pub start: Option<i64>,
    /// When the activity ends; where it is set, the presence shows only the end.
    pub end: Option<i64>,
    pub large_image: PresenceImage,
    pub small_image: PresenceImage,
}

/// What a BloxstrapRPC message does.
pub enum PresenceOutcome {
    Update(PresenceUpdate),
    /// The message names no command: it is ignored.
    MissingCommand,
    /// The message names another command than `SetRichPresence`: it is ignored.
    OtherCommand,
}

/// The address from which Roblox serves the asset `asset_id`.
pub open spec fn assetdelivery_url_spec(asset_id: int) -> Seq<char> {
    "https://assetdelivery.roblox.com/v1/asset/?id="@ + decimal(asset_id)
}

/// The address from which Roblox serves the asset `asset_id`.
pub fn convert_into_assetdelivery_url(asset_id: i64) -> (res: String)
    ensures
        res@ == assetdelivery_url_spec(asset_id as int),
{
    let id = decimal_string(asset_id);
    concat("https://assetdelivery.roblox.com/v1/asset/?id=", id.as_str())
}

/// The presence image for a message image: the asset's address where an asset is named,
/// and the hover text where one is given.
pub open spec fn image_matches(shown: PresenceImage, image: Option<RichPresenceImage>) -> bool {
    match image {
        Some(img) => {
            &&& match img.asset_id {
                Some(id) => shown.url matches Some(u) && u@ == assetdelivery_url_spec(id as int),
                None => shown.url is None,
            }
            &&& shown.text == img.hover_text
        },
        None => shown.url is None && shown.text is None,
    }
}

fn presence_image(image: Option<RichPresenceImage>) -> (res: PresenceImage)
    ensures
        image_matches(res, image),
{
    match image {
        Some(img) => {
            let url = match img.asset_id {
                Some(id) => Some(convert_into_assetdelivery_url(id)),
                None => None,
            };
            PresenceImage { url, text: img.hover_text }
        },
        None => PresenceImage { url: None, text: None },
    }
}

/// A text of the message where it is given and not empty.
pub open spec fn nonempty_text(shown: Option<String>, given: Option<String>) -> bool {
    match given {
        Some(s) => if s@.len() > 0 { shown == Some(s) } else { shown is None },
        None => shown is None,
    }
}

fn nonempty(given: Option<String>) -> (res: Option<String>)
    ensures
        nonempty_text(res, given),
{
    match given {
        Some(s) => if s.as_str().is_empty() { None } else { Some(s) },
        None => None,
    }
}

/// A time that is given and not zero.
pub open spec fn given_nonzero(t: Option<i64>) -> bool {
    t matches Some(x) && x != 0
}

/// The presence that the message `parsed` sets, at the time `now_ms`: only `SetRichPresence`
/// is obeyed; empty texts are left out; the start is the message's, or now where it gives
/// none (or zero); and an end, where the message gives a non-zero one, replaces the start.
pub fn presence_update(parsed: RichPresence, now_ms: i64) -> (res: PresenceOutcome)
    requires
        parsed.data is Some,
    ensures
        match parsed.command {
            None => res is MissingCommand,
            Some(c) => if c@ != "SetRichPresence"@ {
                res is OtherCommand
            } else {
                match res {
                    PresenceOutcome::Update(u) => {
                        let d = parsed.data.unwrap();
                        &&& nonempty_text(u.state, d.state)
                        &&& nonempty_text(u.details, d.details)
                        &&& image_matches(u.large_image, d.large_image)
                        &&& image_matches(u.small_image, d.small_image)
                        &&& if given_nonzero(d.time_end) {
                            u.end == d.time_end && u.start is None
                        } else {
                            &&& u.end is None
                            &&& u.start == Some(if given_nonzero(d.time_start) { d.time_start.unwrap() } else { now_ms })
                        }
                    },
                    _ => false,
                }
            },
        },
{
    let RichPresence { command, data } = parsed;
    let data = match data {
        Some(d) => d,
        None => {
            return PresenceOutcome::MissingCommand;
        },
    };
    let command = match command {
        Some(c) => c,
        None => {
            return PresenceOutcome::MissingCommand;
        },
    };
    if !str_eq(command.as_str(), "SetRichPresence") {
        return PresenceOutcome::OtherCommand;
    }
    let RichPresenceData { state, details, time_start, time_end, small_image, large_image } = data;
    let large = presence_image(large_image);
    let small = presence_image(small_image);
    let (start, end) = match time_end {
        Some(e) if e != 0 => (None, Some(e)),
        _ => {
            let s = match time_start {
                Some(s) if s != 0 => s,
                _ => now_ms,
            };
            (Some(s), None)
        },
    };
    PresenceOutcome::Update(
        PresenceUpdate {
            state: nonempty(state),
            details: nonempty(details),
            start,
            end,
            large_image: large,
            small_image: small,
        },
    )
}

/// The default presence's state: `Using Roblox <binary> on Linux!`.
pub fn default_presence_state(binary: &str) -> (res: String)
    ensures
        res@ == "Using Roblox "@ + binary@ + " on Linux!"@,
{
    let a = concat("Using Roblox ", binary);
    concat(a.as_str(), " on Linux!")
}

/// The presence shown outside BloxstrapRPC: the default state for `binary`, the details
/// `With Applejuice`, Applejuice's image with the hover text `large_text`, started at `now_ms`.
pub fn default_presence(binary: &str, large_text: &str, now_ms: i64) -> (res: PresenceUpdate)
    ensures
        res.state matches Some(s) && s@ == "Using Roblox "@ + binary@ + " on Linux!"@,
        res.details matches Some(d) && d@ == "With Applejuice"@,
        res.start == Some(now_ms),
        res.end is None,
        res.large_image.url matches Some(u) && u@ == "crudejuice"@,
        res.large_image.text matches Some(t) && t@ == large_text@,
        res.small_image.url is None,
        res.small_image.text is None,
{
    PresenceUpdate {
        state: Some(default_presence_state(binary)),
        details: Some(String::from_str("With Applejuice")),
        start: Some(now_ms),
        end: None,
        large_image: PresenceImage {
            url: Some(String::from_str("crudejuice")),
            text: Some(copy_str(large_text)),
        },
        small_image: PresenceImage { url: None, text: None },
    }
}

/// Whether the user has been told that the game speaks BloxstrapRPC.
pub struct BloxstrapNotice {
    pub detected: bool,
}

/// One BloxstrapRPC message seen with the notice in state `n`: the state afterwards, and
/// whether the user is told.
pub open spec fn notice_step(n: BloxstrapNotice) -> (BloxstrapNotice, bool) {
    (BloxstrapNotice { detected: true }, !n.detected)
}

/// Whether the user is told, for each of `k` BloxstrapRPC messages seen in turn from the
/// state `n`.
pub open spec fn notices(n: BloxstrapNotice, k: nat) -> Seq<bool>
    decreases k,
{
    if k == 0 {
        Seq::empty()
    } else {
        seq![notice_step(n).1] + notices(notice_step(n).0, (k - 1) as nat)
    }
}

impl BloxstrapNotice {
    pub fn new() -> (res: Self)
        ensures
            !res.detected,
    {
        BloxstrapNotice { detected: false }
    }

    /// A BloxstrapRPC message was seen: the user is told the first time only.
    pub fn message_seen(&mut self) -> (notify: bool)
        ensures
            (*final(self), notify) == notice_step(*old(self)),
    {
        let notify = !self.detected;
        self.detected = true;
        notify
    }
}

/// Once the notice has been given, no later message gives it again.
proof fn lemma_detected_stays_silent(k: nat)
    ensures
        notices(BloxstrapNotice { detected: true }, k) =~= Seq::new(k, |i: int| false),
    decreases k,
{
    if k > 0 {
        lemma_detected_stays_silent((k - 1) as nat);
    }
}

/// In a session, of the BloxstrapRPC messages seen from a fresh notice, the first one alone
/// tells the user that the game speaks BloxstrapRPC.
pub proof fn only_first_message_notifies(k: nat)
    ensures
        notices(BloxstrapNotice { detected: false }, k) =~= Seq::new(k, |i: int| i == 0),
{
    if k > 0 {
        lemma_detected_stays_silent((k - 1) as nat);
    }
}

} // verus!
