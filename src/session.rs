use vstd::prelude::*;
use crate::interval::{covers, find_in_interval, well_ordered, LyricLine};
use crate::lyrics::{chars_of, interval_lyrics, parse_table, table_view};

verus! {

/// How long to wait before asking again for a player when none is running.
pub const NO_PLAYER_BACKOFF_MS: u64 = 5000;

/// How long to wait before asking again for the current track.
pub const METADATA_RETRY_MS: u64 = 50;

/// How often the playback position is sampled.
pub const SAMPLE_INTERVAL_MS: u64 = 50;

/// The conditions reported to the display.
#[derive(Clone, Copy, Debug, PartialEq, Eq, Structural)]
pub enum PlayerError {
    NoPlayer,
    NoLyrics,
}

impl PlayerError {
    /// The message shown for this condition.
    pub fn message(&self) -> (r: &'static str)
        ensures
            *self == PlayerError::NoPlayer ==> r@ == "No players found."@,
            *self == PlayerError::NoLyrics ==> r@ == "Couldn't find lyrics for this song."@,
    {
        proof {
            reveal_strlit("No players found.");
            reveal_strlit("Couldn't find lyrics for this song.");
        }
        match self {
            PlayerError::NoPlayer => "No players found.",
            PlayerError::NoLyrics => "Couldn't find lyrics for this song.",
        }
    }
}

/// A status message for the display: the table of a track whose lyrics are
/// ready, or a condition that stops the display from showing any.
#[derive(Debug, Clone)]
pub struct MessageBuilder {
    pub interval: Vec<LyricLine>,
    pub error_message: Option<PlayerError>,
}

impl Default for MessageBuilder {
    fn default() -> (r: Self)
        ensures
            r.interval@.len() == 0,
            r.error_message is None,
    {
        MessageBuilder { interval: Vec::new(), error_message: None }
    }
}

impl MessageBuilder {
    /// An empty message: no table and no error.
    pub fn builder() -> (r: Self)
        ensures
            r.interval@.len() == 0,
            r.error_message is None,
    {
        MessageBuilder::default()
    }

    /// The message carrying a copy of `interval` as its table.
    pub fn interval(self, interval: &mut [LyricLine]) -> (r: Self)
        ensures
            r.interval@ == old(interval)@,
            r.error_message == self.error_message,
            final(interval)@ == old(interval)@,
    {
        let mut copy: Vec<LyricLine> = Vec::new();
        let mut i: usize = 0;
        while i < interval.len()
            invariant
                i <= interval@.len(),
                copy@ == interval@.take(i as int),
            decreases interval@.len() - i,
        {
            let line = &interval[i];
            copy.push((line.0, line.1, line.2.clone()));
            assert(copy@ =~= interval@.take(i + 1));
            i = i + 1;
        }
        assert(copy@ =~= interval@);
        MessageBuilder { interval: copy, error_message: self.error_message }
    }

    /// The message that reports `error`.
    pub fn failure(error: PlayerError) -> (r: Self)
        ensures
            r.interval@.len() == 0,
            r.error_message == Some(error),
    {
        let mut message = MessageBuilder::builder();
        message.error_message = Some(error);
        message
    }
}

/// The suffix that marks an auto-generated "topic" channel as the artist.
pub open spec fn topic_marker() -> Seq<char> {
    seq![' ', '-', ' ', 'T', 'o', 'p', 'i', 'c']
}

/// `s` with every occurrence of the topic marker taken out, left to right.
pub open spec fn strip_topic(s: Seq<char>) -> Seq<char>
    decreases s.len(),
{
    if s.len() == 0 {
        s
    } else if s.len() >= 8 && s.take(8) == topic_marker() {
        strip_topic(s.skip(8))
    } else {
        seq![s[0]] + strip_topic(s.skip(1))
    }
}

/// The query that searches for a track by artist and title.
pub open spec fn artist_title_query(artist: Seq<char>, title: Seq<char>) -> Seq<char> {
    artist + seq![' '] + title
}

fn marker_at(cs: &Vec<char>, i: usize) -> (r: bool)
    requires
        i <= cs@.len(),
    ensures
        r == (cs@.len() - i >= 8 && cs@.skip(i as int).take(8) == topic_marker()),
{
    if cs.len() - i < 8 {
        return false;
    }
    let r = cs[i] == ' ' && cs[i + 1] == '-' && cs[i + 2] == ' ' && cs[i + 3] == 'T' && cs[i + 4]
        == 'o' && cs[i + 5] == 'p' && cs[i + 6] == 'i' && cs[i + 7] == 'c';
    assert(r == (cs@.skip(i as int).take(8) =~= topic_marker()));
    r
}

/// The artist name with the topic-channel marker `" - Topic"` taken out,
/// which finds more lyrics than the channel's name.
pub fn normalize_artist(artist: &str) -> (r: String)
    ensures
        r@ == strip_topic(artist@),
{
    let cs = chars_of(artist);
    let n = cs.len();
    let mut out = String::new();
    let mut seg: usize = 0;
    let mut i: usize = 0;
    assert(cs@.skip(0) =~= cs@);
    assert(out@ + cs@.subrange(0, 0) =~= Seq::<char>::empty());
    while i < n
        invariant
            n == cs@.len(),
            cs@ == artist@,
            seg <= i <= n,
            out@ + cs@.subrange(seg as int, i as int) + strip_topic(cs@.skip(i as int)) == strip_topic(
                cs@,
            ),
        decreases n - i,
    {
        let ghost rest = cs@.skip(i as int);
        assert(rest.len() > 0);
        if marker_at(&cs, i) {
            assert(rest.skip(8) =~= cs@.skip(i + 8));
            out.append(artist.substring_char(seg, i));
            i = i + 8;
            seg = i;
            assert(cs@.subrange(seg as int, i as int) =~= Seq::<char>::empty());
            assert(out@ + cs@.subrange(seg as int, i as int) =~= out@);
        } else {
            assert(rest.skip(1) =~= cs@.skip(i + 1));
            assert(cs@.subrange(seg as int, i + 1) =~= cs@.subrange(seg as int, i as int) + seq![
                cs@[i as int],
            ]);
            i = i + 1;
        }
    }
    out.append(artist.substring_char(seg, n));
    assert(cs@.skip(n as int) =~= Seq::<char>::empty());
    out
}

/// The query `"{artist} {title}"`.
pub fn search_query(artist: &str, title: &str) -> (r: String)
    ensures
        r@ == artist_title_query(artist@, title@),
{
    let mut q = String::from_str(artist);
    proof {
        reveal_strlit(" ");
    }
    q.append(" ");
    q.append(title);
    q
}

/// Where the tracking loop stands.
#[derive(Clone, Copy, Debug, PartialEq, Eq, Structural)]
pub enum Phase {
    /// Waiting for a media player to run.
    AwaitingPlayer,
    /// Waiting for the player to report artist and title.
    ReadingMetadata,
    /// Searching for lyrics by artist and title.
    Searching,
    /// Searching again, by title alone.
    SearchingTitle,
    /// Following the playback position through the table.
    Sampling,
    /// No lyrics were found; the loop ends.
    Finished,
}

/// What the outside world reported, in answer to the query that the phase asks for.
pub enum Event {
    /// Whether a media player runs.
    PlayerStatus { active: bool },
    /// The track that plays.
    Track { artist: String, title: String },
    /// The player reported no track.
    NoTrack,
    /// The search found nothing.
    NothingFound,
    /// The best match of the search, with its synced lyrics if it has any.
    Found { synced_lyrics: Option<String> },
    /// The track that plays and how far it has played.
    Sample { title: String, position_us: u64 },
}

/// What the loop should do in answer to an event.
pub enum Action {
    /// Nothing to send; go on to the phase's next query.
    Idle,
    /// Wait before the next query.
    Wait { millis: u64 },
    /// Send `message` to the display, then wait `wait_ms`.
    Send { message: MessageBuilder, wait_ms: u64 },
    /// Highlight line `index` of the table.
    Highlight { index: usize },
}

/// The state of one tracking session.
pub struct Tracker {
    pub phase: Phase,
    /// The title of the tracked track, to notice when another one plays.
    pub title: String,
    /// The query to search for lyrics with.
    pub query: String,
    /// The lines of the tracked track's lyrics.
    pub table: Vec<LyricLine>,
}

pub open spec fn reports(a: Action, error: PlayerError, wait_ms: u64) -> bool {
    a matches Action::Send { message, wait_ms: w } && message.interval@.len() == 0
        && message.error_message == Some(error) && w == wait_ms
}

/// Synced lyrics that can be followed: present and not empty.
pub open spec fn usable_lyrics(l: Option<String>) -> bool {
    l matches Some(text) && text@.len() > 0
}

/// The answer to a sample of the tracked track: the line that covers the
/// position, or nothing where no line covers it.
pub open spec fn answers_sample(table: Seq<LyricLine>, position_us: u64, a: Action) -> bool {
    &&& (a is Idle || a is Highlight)
    &&& (a is Highlight ==> covers(table, a->index as int, position_us))
    &&& (well_ordered(table) && (a is Idle) ==> forall|i: int| !covers(table, i, position_us))
}

/// One step of the tracking loop: from tracker `t`, on `event`, to tracker
/// `f` with action `a`. An event that the phase did not ask for changes
/// nothing.
pub open spec fn steps_to(t: Tracker, event: Event, f: Tracker, a: Action) -> bool {
    match (t.phase, event) {
        (Phase::AwaitingPlayer, Event::PlayerStatus { active }) => if active {
            f == (Tracker { phase: Phase::ReadingMetadata, ..t }) && a is Idle
        } else {
            f == t && reports(a, PlayerError::NoPlayer, NO_PLAYER_BACKOFF_MS)
        },
        (Phase::ReadingMetadata, Event::NoTrack) => f == (Tracker {
            phase: Phase::AwaitingPlayer,
            ..t
        }) && a == (Action::Wait { millis: METADATA_RETRY_MS }),
        (Phase::ReadingMetadata, Event::Track { artist, title }) => {
            &&& f.phase == Phase::Searching
            &&& f.title@ == title@
            &&& f.query@ == artist_title_query(strip_topic(artist@), title@)
            &&& f.table@.len() == 0
            &&& a is Idle
        },
        (Phase::Searching, Event::NothingFound) => {
            &&& f.phase == Phase::SearchingTitle
            &&& f.title == t.title
            &&& f.query@ == t.title@
            &&& f.table == t.table
            &&& a is Idle
        },
        (Phase::SearchingTitle, Event::NothingFound) => f == (Tracker {
            phase: Phase::Finished,
            ..t
        }) && reports(a, PlayerError::NoLyrics, 0),
        (Phase::Searching, Event::Found { synced_lyrics }) | (
            Phase::SearchingTitle,
            Event::Found { synced_lyrics },
        ) => if usable_lyrics(synced_lyrics) {
            &&& f.phase == Phase::Sampling
            &&& f.title == t.title
            &&& f.query == t.query
            &&& table_view(f.table@) == parse_table(synced_lyrics->0@)
            &&& (a matches Action::Send { message, wait_ms } && message.interval@ == f.table@
                && message.error_message is None && wait_ms == 0)
        } else {
            f == (Tracker { phase: Phase::Finished, ..t }) && reports(a, PlayerError::NoLyrics, 0)
        },
        (Phase::Sampling, Event::Sample { title, position_us }) => if title@ == t.title@ {
            &&& f == t
            &&& answers_sample(t.table@, position_us, a)
        } else {
            f.phase == Phase::AwaitingPlayer && f.title == t.title && f.query == t.query
                && f.table@.len() == 0 && a is Idle
        },
        _ => f == t && a is Idle,
    }
}

impl Tracker {
    /// A session that waits for a player.
    pub fn new() -> (r: Self)
        ensures
            r.phase == Phase::AwaitingPlayer,
            r.title@.len() == 0,
            r.query@.len() == 0,
            r.table@.len() == 0,
    {
        Tracker { phase: Phase::AwaitingPlayer, title: String::new(), query: String::new(), table: Vec::new() }
    }

    /// Takes one event and says what to do about it.
    pub fn step(&mut self, event: Event) -> (a: Action)
        ensures
            steps_to(*old(self), event, *final(self), a),
    {
        match (self.phase, event) {
            (Phase::AwaitingPlayer, Event::PlayerStatus { active }) => {
                if active {
                    self.phase = Phase::ReadingMetadata;
                    Action::Idle
                } else {
                    Action::Send {
                        message: MessageBuilder::failure(PlayerError::NoPlayer),
                        wait_ms: NO_PLAYER_BACKOFF_MS,
                    }
                }
            },
            (Phase::ReadingMetadata, Event::NoTrack) => {
                self.phase = Phase::AwaitingPlayer;
                Action::Wait { millis: METADATA_RETRY_MS }
            },
            (Phase::ReadingMetadata, Event::Track { artist, title }) => {
                let artist = normalize_artist(artist.as_str());
                self.query = search_query(artist.as_str(), title.as_str());
                self.title = title;
                self.table = Vec::new();
                self.phase = Phase::Searching;
                Action::Idle
            },
            (Phase::Searching, Event::NothingFound) => {
                self.query = self.title.clone();
                self.phase = Phase::SearchingTitle;
                Action::Idle
            },
            (Phase::SearchingTitle, Event::NothingFound) => {
                self.phase = Phase::Finished;
                Action::Send { message: MessageBuilder::failure(PlayerError::NoLyrics), wait_ms: 0 }
            },
            (Phase::Searching, Event::Found { synced_lyrics }) | (
                Phase::SearchingTitle,
                Event::Found { synced_lyrics },
            ) => {
                match synced_lyrics {
                    Some(text) if text.unicode_len() > 0 => {
                        let mut table = interval_lyrics(text.as_str());
                        let message = MessageBuilder::builder().interval(table.as_mut_slice());
                        self.table = table;
                        self.phase = Phase::Sampling;
                        Action::Send { message, wait_ms: 0 }
                    },
                    _ => {
                        self.phase = Phase::Finished;
                        Action::Send {
                            message: MessageBuilder::failure(PlayerError::NoLyrics),
                            wait_ms: 0,
                        }
                    },
                }
            },
            (Phase::Sampling, Event::Sample { title, position_us }) => {
                if title == self.title {
                    match find_in_interval(self.table.as_slice(), position_us) {
                        Some(index) => Action::Highlight { index },
                        None => Action::Idle,
                    }
                } else {
                    self.table = Vec::new();
                    self.phase = Phase::AwaitingPlayer;
                    Action::Idle
                }
            },
            _ => Action::Idle,
        }
    }
}

/// A change of track while sampling restarts the lookup of lyrics: a sample
/// of another title drops the table and highlights nothing, and once the
/// player answers again, the track it reports is searched for by its own
/// artist and title.
pub proof fn lemma_track_change_restarts(
    t: Tracker,
    title: String,
    position_us: u64,
    f: Tracker,
    a: Action,
    f2: Tracker,
    a2: Action,
    artist: String,
    new_title: String,
    f3: Tracker,
    a3: Action,
)
    requires
        t.phase == Phase::Sampling,
        title@ != t.title@,
        steps_to(t, Event::Sample { title, position_us }, f, a),
        steps_to(f, Event::PlayerStatus { active: true }, f2, a2),
        steps_to(f2, Event::Track { artist, title: new_title }, f3, a3),
    ensures
        f.phase == Phase::AwaitingPlayer,
        f.table@.len() == 0,
        a is Idle,
        f3.phase == Phase::Searching,
        f3.title@ == new_title@,
        f3.query@ == artist_title_query(strip_topic(artist@), new_title@),
        f3.table@.len() == 0,
{
}

} // verus!
