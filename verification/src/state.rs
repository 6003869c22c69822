//! The decisions of the market view: the status log, which leagues are
//! listed and which events each shows, search, live status and which book
//! updates are taken.

use crate::clob::Credentials;
use crate::keyed::{item_view, upserts, KeyedList};
use crate::sports::SportsData;
use crate::text::{contains_text, lower, lowercase, occurs_in, owned, same_text};
use vstd::prelude::*;

verus! {

/// The number of entries above which recording a message drops the oldest.
pub const STATUS_LOG_LIMIT: usize = 20;

/// Messages shown in the status bar, oldest first.
pub struct StatusLog {
    pub entries: Vec<String>,
}

/// The entries after recording `m`: appended, and the oldest dropped when
/// that makes more than the limit.
pub open spec fn recorded(s: Seq<String>, m: String) -> Seq<String> {
    if s.len() + 1 > STATUS_LOG_LIMIT {
        s.push(m).drop_first()
    } else {
        s.push(m)
    }
}

impl StatusLog {
    /// The log at start-up, with one message.
    pub fn new() -> (l: Self)
        ensures
            l.entries@.len() == 1,
            l.entries@[0]@ == "Sistema iniciado"@,
    {
        let mut entries: Vec<String> = Vec::new();
        entries.push(owned("Sistema iniciado"));
        StatusLog { entries }
    }

    /// Records a message, dropping the oldest entry when the log would
    /// exceed its limit.
    pub fn record(&mut self, m: String)
        ensures
            final(self).entries@ == recorded(old(self).entries@, m),
    {
        self.entries.push(m);
        if self.entries.len() > STATUS_LOG_LIMIT {
            self.entries.remove(0);
        }
    }

    /// Appends a message without dropping any entry.
    pub fn note(&mut self, m: String)
        ensures
            final(self).entries@ == old(self).entries@.push(m),
    {
        self.entries.push(m);
    }

    /// The newest entry, if any.
    pub fn last(&self) -> (r: Option<&String>)
        ensures
            self.entries@.len() == 0 ==> r is None,
            self.entries@.len() > 0 ==> r == Some(&self.entries@.last()),
    {
        if self.entries.len() == 0 {
            None
        } else {
            Some(&self.entries[self.entries.len() - 1])
        }
    }
}

/// Law: recording keeps a log within its limit, the message recorded is the
/// newest entry, and the entries are the newest ones of the old entries
/// followed by the message, in order.
pub proof fn law_record_bounded(s: Seq<String>, m: String)
    ensures
        s.len() <= STATUS_LOG_LIMIT ==> recorded(s, m).len() <= STATUS_LOG_LIMIT,
        recorded(s, m).len() > 0,
        recorded(s, m).last() == m,
        recorded(s, m) == s.push(m).subrange(
            s.push(m).len() - recorded(s, m).len(),
            s.push(m).len() as int,
        ),
{
    let t = s.push(m);
    if s.len() + 1 > STATUS_LOG_LIMIT {
        assert(t.drop_first() =~= t.subrange(1, t.len() as int));
    } else {
        assert(t =~= t.subrange(0, t.len() as int));
    }
}

/// A league listed in the navigator: its slug in the sports metadata and
/// the name shown.
pub struct League {
    pub slug: String,
    pub label: String,
}

/// The leagues listed in the navigator, in order: slug and name.
pub open spec fn league_table() -> Seq<(Seq<char>, Seq<char>)> {
    seq![
        ("ucl"@, "Champions League"@),
        ("bun"@, "Bundesliga"@),
        ("lal"@, "La Liga"@),
        ("sea"@, "Serie A"@),
        ("mls"@, "MLS"@),
        ("fl1"@, "Ligue 1"@),
        ("tur"@, "Süper Lig"@),
        ("mex"@, "Liga MX"@),
        ("por"@, "Primeira Liga"@),
        ("ere"@, "Eredivisie"@),
        ("spl"@, "Saudi Pro League"@),
        ("epl"@, "Premier League"@),
        ("bra"@, "Brazil Série A"@),
        ("uel"@, "Europa League"@),
        ("lib"@, "Libertadores"@),
        ("arg"@, "Argentina Primera"@),
    ]
}

fn league(slug: &str, label: &str) -> (l: League)
    ensures
        l.slug@ == slug@,
        l.label@ == label@,
{
    League { slug: owned(slug), label: owned(label) }
}

/// The leagues listed in the navigator.
pub fn allowed_leagues() -> (r: Vec<League>)
    ensures
        r@.len() == league_table().len(),
        forall|i: int|
            0 <= i < r@.len() ==> (#[trigger] r@[i]).slug@ == league_table()[i].0 && r@[i].label@
                == league_table()[i].1,
{
    let mut r: Vec<League> = Vec::new();
    r.push(league("ucl", "Champions League"));
    r.push(league("bun", "Bundesliga"));
    r.push(league("lal", "La Liga"));
    r.push(league("sea", "Serie A"));
    r.push(league("mls", "MLS"));
    r.push(league("fl1", "Ligue 1"));
    r.push(league("tur", "Süper Lig"));
    r.push(league("mex", "Liga MX"));
    r.push(league("por", "Primeira Liga"));
    r.push(league("ere", "Eredivisie"));
    r.push(league("spl", "Saudi Pro League"));
    r.push(league("epl", "Premier League"));
    r.push(league("bra", "Brazil Série A"));
    r.push(league("uel", "Europa League"));
    r.push(league("lib", "Libertadores"));
    r.push(league("arg", "Argentina Primera"));
    r
}

/// What the navigator reads of a sport's metadata: its slug and tag ids.
pub struct SportSummary {
    pub sport: String,
    pub tags: Vec<String>,
}

/// The tag id that lists a sport's events: its last (most specific) tag,
/// or empty text when it has none.
pub open spec fn sport_tag(s: SportSummary) -> Seq<char> {
    if s.tags@.len() > 0 {
        s.tags@.last()@
    } else {
        Seq::empty()
    }
}

/// Law: a sport's tag is its last tag, or empty text when it has none.
pub proof fn law_sport_tag(s: SportSummary)
    ensures
        s.tags@.len() > 0 ==> sport_tag(s) == s.tags@[s.tags@.len() - 1]@,
        s.tags@.len() == 0 ==> sport_tag(s).len() == 0,
{
}

/// The tag id of the first sport with slug `slug`, or empty text when no
/// sport has that slug or it has no tag.
pub fn league_tag_id(sports: &Vec<SportSummary>, slug: &str) -> (r: String)
    ensures
        (exists|i: int| 0 <= i < sports@.len() && (#[trigger] sports@[i]).sport@ == slug@) ==> (
        exists|i: int|
            0 <= i < sports@.len() && (#[trigger] sports@[i]).sport@ == slug@ && (forall|j: int|
                0 <= j < i ==> (#[trigger] sports@[j]).sport@ != slug@) && r@ == sport_tag(
                sports@[i],
            )),
        !(exists|i: int| 0 <= i < sports@.len() && (#[trigger] sports@[i]).sport@ == slug@)
            ==> r@ == Seq::<char>::empty(),
{
    proof {
        reveal_strlit("");
    }
    let n: usize = sports.len();
    let mut i: usize = 0;
    while i < n
        invariant
            n == sports.len(),
            i <= n,
            forall|j: int| 0 <= j < i ==> (#[trigger] sports@[j]).sport@ != slug@,
        decreases n - i,
    {
        if same_text(sports[i].sport.as_str(), slug) {
            assert(sports@[i as int].sport@ == slug@);
            let tags: &Vec<String> = &sports[i].tags;
            if tags.len() > 0 {
                return tags[tags.len() - 1].clone();
            } else {
                proof {
                    reveal_strlit("");
                }
                let e: String = owned("");
                assert(e@ =~= Seq::<char>::empty());
                assert(e@ == sport_tag(sports@[i as int]));
                return e;
            }
        }
        i = i + 1;
    }
    owned("")
}

/// Whether an event's tag ids include `tag_id`; an event without tags has
/// none.
pub fn event_has_tag(tags: &Option<Vec<String>>, tag_id: &str) -> (b: bool)
    ensures
        b == (tags is Some && exists|i: int|
            0 <= i < tags->0@.len() && (#[trigger] tags->0@[i])@ == tag_id@),
{
    match tags {
        Some(ts) => {
            let n: usize = ts.len();
            let mut i: usize = 0;
            while i < n
                invariant
                    n == ts.len(),
                    i <= n,
                    tags is Some,
                    tags->0 == *ts,
                    forall|j: int| 0 <= j < i ==> (#[trigger] ts@[j])@ != tag_id@,
                decreases n - i,
            {
                if same_text(ts[i].as_str(), tag_id) {
                    assert(ts@[i as int]@ == tag_id@);
                    assert(tags->0@[i as int]@ == tag_id@);
                    return true;
                }
                i = i + 1;
            }
            false
        },
        None => false,
    }
}

/// An event's title, or "Untitled" when it has none.
pub open spec fn title_text(title: Option<String>) -> Seq<char> {
    match title {
        Some(t) => t@,
        None => "Untitled"@,
    }
}

/// An event's title, or "Untitled" when it has none.
pub fn event_title(title: &Option<String>) -> (r: String)
    ensures
        r@ == title_text(*title),
{
    match title {
        Some(t) => t.clone(),
        None => owned("Untitled"),
    }
}

/// Whether an event's title matches the search text: the lowercase title
/// contains the lowercase search text.
pub fn matches_search(title: &Option<String>, query: &str) -> (b: bool)
    ensures
        b == occurs_in(lower(query@), lower(title_text(*title))),
{
    let t: String = event_title(title);
    let lt: String = lowercase(t.as_str());
    let lq: String = lowercase(query);
    contains_text(lt.as_str(), lq.as_str())
}

/// The status of the match an event is about: that of the latest update of
/// its slug (an event without slug has the empty slug), or "Scheduled"
/// when no update arrived.
pub fn event_status(updates: &KeyedList<SportsData>, slug: &Option<String>) -> (r: String)
    ensures
        ({
            let k = match slug {
                Some(s) => s@,
                None => Seq::<char>::empty(),
            };
            r@ == match updates.lookup(k) {
                Some(u) => u.status@,
                None => "Scheduled"@,
            }
        }),
{
    let k: String = match slug {
        Some(s) => s.clone(),
        None => {
            proof {
                reveal_strlit("");
            }
            owned("")
        },
    };
    let ghost kv = match slug {
        Some(s) => s@,
        None => Seq::<char>::empty(),
    };
    assert(k@ == kv);
    match updates.get(k.as_str()) {
        Some(u) => u.status.clone(),
        None => owned("Scheduled"),
    }
}

/// Whether a match status means the match is being played.
pub fn is_live(status: &str) -> (b: bool)
    ensures
        b == (status@ == "InProgress"@),
{
    same_text(status, "InProgress")
}

/// Whether a book update for `token` is shown: only when that token is the
/// one selected.
pub fn accepts_book(selected: &Option<String>, token: &str) -> (b: bool)
    ensures
        b == (selected is Some && selected->0@ == token@),
{
    match selected {
        Some(s) => same_text(s.as_str(), token),
        None => false,
    }
}

/// Whether the credentials lack the funder address that the portfolio
/// value needs, which sends the user back to the login.
pub fn lacks_funder(c: &Credentials) -> (b: bool)
    ensures
        b == (c.funder_address is None || c.funder_address->0@.len() == 0),
{
    match &c.funder_address {
        Some(f) => f.as_str().is_empty(),
        None => true,
    }
}

/// Marks a tag as loading; false when it already is, in which case nothing
/// changes.
pub fn begin_loading(loading: &mut KeyedList<()>, tag_id: String) -> (started: bool)
    ensures
        started == !old(loading).key_seq().contains(tag_id@),
        final(loading).key_seq().contains(tag_id@),
        !started ==> final(loading).key_seq() == old(loading).key_seq(),
        started ==> final(loading).key_seq() == old(loading).key_seq().push(tag_id@),
{
    if loading.contains_key(tag_id.as_str()) {
        return false;
    }
    let ghost k = tag_id@;
    loading.upsert(tag_id, ());
    assert(loading.key_seq()[loading.key_seq().len() - 1] == k);
    true
}

/// Takes in a batch of events loaded for a tag: the tag is no longer
/// loading, and each event is set under its id (see `law_batch_upsert`).
pub fn receive_events<E>(
    events: &mut KeyedList<E>,
    loading: &mut KeyedList<()>,
    batch: Vec<(String, Option<E>)>,
    tag: Option<String>,
)
    ensures
        (final(events).key_seq(), final(events).value_seq()) == upserts(
            old(events).key_seq(),
            old(events).value_seq(),
            item_view(batch@),
        ),
        tag is Some ==> !final(loading).key_seq().contains(tag->0@),
        tag is Some && old(loading).key_seq().contains(tag->0@) ==> final(loading).key_seq()
            == old(loading).key_seq().remove(old(loading).key_seq().index_of(tag->0@)),
        tag is None || !old(loading).key_seq().contains(tag->0@) ==> final(loading).key_seq()
            == old(loading).key_seq(),
{
    match &tag {
        Some(t) => {
            loading.remove(t.as_str());
        },
        None => {},
    }
    events.upsert_all(batch);
}

/// The token of an event that is selected with it: the first token of its
/// first market, when the event has markets and that market has tokens.
pub fn first_market_token(markets: &Option<Vec<Option<Vec<String>>>>) -> (r: Option<String>)
    ensures
        r is Some <==> (markets is Some && markets->0@.len() > 0 && markets->0@[0] is Some
            && markets->0@[0]->0@.len() > 0),
        r is Some ==> r->0@ == markets->0@[0]->0@[0]@,
{
    match markets {
        Some(ms) => {
            if ms.len() == 0 {
                return None;
            }
            match &ms[0] {
                Some(tokens) => {
                    if tokens.len() == 0 {
                        None
                    } else {
                        Some(tokens[0].clone())
                    }
                },
                None => None,
            }
        },
        None => None,
    }
}

} // verus!
