//! The media player provider: which player is shown, what of its metadata
//! is read, and the values published.
use vstd::prelude::*;

use crate::network::{pairs_view, push_pair_text};
use crate::order::{lex_lt, str_less, texts};
use crate::text::{decimal, normalize_ws, normalize_ws_str, owned, signed_decimal, str_eq, i64_to_string};

verus! {

/// What is known of one player.
#[derive(Debug)]
pub struct PlayerSnapshot {
    pub service: String,
    pub identity: String,
    pub status: String,
    pub title: String,
    pub artist: String,
    pub album: String,
    pub art_url: String,
    pub length_us: String,
    pub position_us: String,
}

/// How a playback status ranks: playing, paused, stopped, anything else.
pub open spec fn rank_of(status: Seq<char>) -> u8 {
    if status == "playing"@ {
        0
    } else if status == "paused"@ {
        1
    } else if status == "stopped"@ {
        2
    } else {
        3
    }
}

/// How a playback status ranks.
pub fn player_rank(status: &str) -> (r: u8)
    ensures
        r == rank_of(status@),
{
    if str_eq(status, "playing") {
        0
    } else if str_eq(status, "paused") {
        1
    } else if str_eq(status, "stopped") {
        2
    } else {
        3
    }
}

/// Whether player `a` is shown rather than `b`: a better status, or the
/// same status and a service name that sorts first.
pub open spec fn shown_before(a: PlayerSnapshot, b: PlayerSnapshot) -> bool {
    rank_of(a.status@) < rank_of(b.status@) || (rank_of(a.status@) == rank_of(b.status@) && lex_lt(
        a.service@,
        b.service@,
    ))
}

fn before(a: &PlayerSnapshot, b: &PlayerSnapshot) -> (r: bool)
    ensures
        r == shown_before(*a, *b),
{
    let ra = player_rank(a.status.as_str());
    let rb = player_rank(b.status.as_str());
    ra < rb || (ra == rb && str_less(a.service.as_str(), b.service.as_str()))
}

/// Some player is shown before player `k`.
pub open spec fn is_beaten(ps: Seq<PlayerSnapshot>, k: int) -> bool {
    exists|j: int| 0 <= j < ps.len() && shown_before(#[trigger] ps[j], ps[k])
}

/// The player shown: the first one that no other player is shown before.
pub open spec fn is_shown(ps: Seq<PlayerSnapshot>, i: int) -> bool {
    &&& 0 <= i < ps.len()
    &&& !is_beaten(ps, i)
    &&& forall|k: int| 0 <= k < i ==> #[trigger] is_beaten(ps, k)
}

proof fn lemma_shown_before_order(a: PlayerSnapshot, b: PlayerSnapshot, c: PlayerSnapshot)
    ensures
        !shown_before(a, a),
        shown_before(a, b) && shown_before(b, c) ==> shown_before(a, c),
{
    crate::order::lemma_lex_irreflexive(a.service@);
    if shown_before(a, b) && shown_before(b, c) && rank_of(a.status@) == rank_of(b.status@) && rank_of(
        b.status@,
    ) == rank_of(c.status@) {
        crate::order::lemma_lex_transitive(a.service@, b.service@, c.service@);
    }
}

proof fn lemma_unbeaten_exists(ps: Seq<PlayerSnapshot>)
    requires
        ps.len() > 0,
    ensures
        exists|i: int| 0 <= i < ps.len() && !is_beaten(ps, i),
    decreases ps.len(),
{
    let n = ps.len() - 1;
    if n == 0 {
        lemma_shown_before_order(ps[0], ps[0], ps[0]);
        assert(!is_beaten(ps, 0));
    } else {
        let pre = ps.drop_last();
        lemma_unbeaten_exists(pre);
        let m = choose|i: int| 0 <= i < pre.len() && !is_beaten(pre, i);
        if is_beaten(ps, m) {
            // Only the last player can be shown before `m`; nobody is shown
            // before the last one.
            let j = choose|j: int| 0 <= j < ps.len() && shown_before(#[trigger] ps[j], ps[m]);
            if j < n {
                assert(pre[j] == ps[j]);
                assert(false);
            }
            assert(j == n);
            if is_beaten(ps, n) {
                let k = choose|k: int| 0 <= k < ps.len() && shown_before(#[trigger] ps[k], ps[n]);
                lemma_shown_before_order(ps[k], ps[n], ps[m]);
                lemma_shown_before_order(ps[n], ps[n], ps[n]);
                assert(k != n);
                assert(pre[k] == ps[k]);
                assert(false);
            }
        } else {
            assert(!is_beaten(ps, m));
        }
    }
}

proof fn lemma_first_unbeaten(ps: Seq<PlayerSnapshot>, u: int)
    requires
        0 <= u < ps.len(),
        !is_beaten(ps, u),
    ensures
        exists|i: int| is_shown(ps, i),
    decreases u,
{
    if forall|k: int| 0 <= k < u ==> #[trigger] is_beaten(ps, k) {
        assert(is_shown(ps, u));
    } else {
        let k = choose|k: int| 0 <= k < u && !#[trigger] is_beaten(ps, k);
        lemma_first_unbeaten(ps, k);
    }
}

/// Whenever there is a player, one of them is shown.
pub proof fn law_some_player_shown(ps: Seq<PlayerSnapshot>)
    requires
        ps.len() > 0,
    ensures
        exists|i: int| is_shown(ps, i),
{
    lemma_unbeaten_exists(ps);
    let u = choose|i: int| 0 <= i < ps.len() && !is_beaten(ps, i);
    lemma_first_unbeaten(ps, u);
}

/// The index of the player shown, if any satisfies the order.
pub fn pick_player(players: &Vec<PlayerSnapshot>) -> (r: Option<usize>)
    ensures
        r matches Some(i) ==> is_shown(players@, i as int),
        r is None <==> players.len() == 0,
{
    proof {
        if players.len() > 0 {
            law_some_player_shown(players@);
        }
    }
    let mut i: usize = 0;
    while i < players.len()
        invariant
            i <= players.len(),
            forall|k: int| 0 <= k < i ==> #[trigger] is_beaten(players@, k),
        decreases players.len() - i,
    {
        let mut j: usize = 0;
        let mut beaten = false;
        while j < players.len() && !beaten
            invariant
                j <= players.len(),
                i < players.len(),
                !beaten ==> forall|q: int| 0 <= q < j ==> !shown_before(#[trigger] players@[q], players@[i as int]),
                beaten ==> is_beaten(players@, i as int),
            decreases players.len() - j + (if beaten { 0int } else { 1int }),
        {
            if before(&players[j], &players[i]) {
                beaten = true;
            } else {
                j += 1;
            }
        }
        if !beaten {
            return Some(i);
        }
        i += 1;
    }
    None
}

/// The summary line of a player: artist and title when known, else the
/// title, else the player's name, with the status in brackets.
pub open spec fn summary_of(p: PlayerSnapshot) -> Seq<char> {
    if p.title@.len() == 0 && p.artist@.len() == 0 {
        p.identity@ + " ("@ + p.status@ + ")"@
    } else if p.artist@.len() == 0 {
        p.title@ + " ("@ + p.status@ + ")"@
    } else {
        p.artist@ + " - "@ + p.title@ + " ("@ + p.status@ + ")"@
    }
}

/// The summary line of a player.
pub fn build_summary(player: &PlayerSnapshot) -> (r: String)
    ensures
        r@ == summary_of(*player),
{
    let mut s = String::new();
    if player.title.as_str().is_empty() && player.artist.as_str().is_empty() {
        s.append(player.identity.as_str());
    } else if player.artist.as_str().is_empty() {
        s.append(player.title.as_str());
    } else {
        s.append(player.artist.as_str());
        s.append(" - ");
        s.append(player.title.as_str());
    }
    s.append(" (");
    s.append(player.status.as_str());
    s.append(")");
    s
}

/// A metadata value as the player sent it.
#[derive(Debug)]
pub enum MetaValue {
    Str(String),
    Strs(Vec<String>),
    I64(i64),
    I32(i32),
    U64(u64),
    Other,
}

/// The value of the first entry with the key.
pub open spec fn meta_get(m: Seq<(String, MetaValue)>, key: Seq<char>) -> Option<MetaValue> {
    match crate::seqs::first_match(m, |e: (String, MetaValue)| e.0@ == key) {
        Some(i) => Some(m[i].1),
        None => None,
    }
}

/// The texts, each with its whitespace runs collapsed, blank ones dropped,
/// joined by commas.
pub open spec fn joined_texts(items: Seq<Seq<char>>) -> Seq<char>
    decreases items.len(),
{
    if items.len() == 0 {
        seq![]
    } else {
        let rest = joined_texts(items.drop_last());
        let w = normalize_ws(items.last());
        if w.len() == 0 {
            rest
        } else if rest.len() == 0 {
            w
        } else {
            rest + ", "@ + w
        }
    }
}

/// A text read from metadata: a string with its whitespace collapsed, or a
/// list of strings joined by commas; empty otherwise.
pub open spec fn meta_text(v: Option<MetaValue>) -> Seq<char> {
    match v {
        Some(MetaValue::Str(s)) => normalize_ws(s@),
        Some(MetaValue::Strs(xs)) => joined_texts(texts(xs@)),
        _ => seq![],
    }
}

fn find_meta<'a>(metadata: &'a Vec<(String, MetaValue)>, key: &str) -> (r: Option<&'a MetaValue>)
    ensures
        r matches Some(v) ==> meta_get(metadata@, key@) == Some(*v),
        r is None ==> meta_get(metadata@, key@) is None,
{
    let ghost p = |e: (String, MetaValue)| e.0@ == key@;
    let mut i: usize = 0;
    while i < metadata.len()
        invariant
            i <= metadata.len(),
            p == (|e: (String, MetaValue)| e.0@ == key@),
            forall|j: int| 0 <= j < i ==> !p(#[trigger] metadata@[j]),
        decreases metadata.len() - i,
    {
        if str_eq(metadata[i].0.as_str(), key) {
            proof {
                crate::seqs::lemma_first_match_some(metadata@, p, i as int);
            }
            return Some(&metadata[i].1);
        }
        i += 1;
    }
    proof {
        crate::seqs::lemma_first_match_none(metadata@, p);
    }
    None
}

fn join_texts(items: &Vec<String>) -> (r: String)
    ensures
        r@ == joined_texts(texts(items@)),
{
    let ghost all = texts(items@);
    let mut out = String::new();
    let mut i: usize = 0;
    while i < items.len()
        invariant
            i <= items.len(),
            all == texts(items@),
            out@ == joined_texts(all.take(i as int)),
        decreases items.len() - i,
    {
        proof {
            assert(all.take(i + 1).drop_last() =~= all.take(i as int));
            assert(all.take(i + 1).last() == items@[i as int]@);
        }
        let w = normalize_ws_str(items[i].as_str());
        if !w.as_str().is_empty() {
            if !out.as_str().is_empty() {
                out.append(", ");
            }
            out.append(w.as_str());
        }
        i += 1;
    }
    assert(all.take(items.len() as int) =~= all);
    out
}

/// A text read from metadata.
pub fn metadata_string(metadata: &Vec<(String, MetaValue)>, key: &str) -> (r: String)
    ensures
        r@ == meta_text(meta_get(metadata@, key@)),
{
    match find_meta(metadata, key) {
        Some(MetaValue::Str(s)) => normalize_ws_str(s.as_str()),
        Some(MetaValue::Strs(xs)) => join_texts(xs),
        _ => String::new(),
    }
}

/// The title.
pub fn metadata_title(metadata: &Vec<(String, MetaValue)>) -> (r: String)
    ensures
        r@ == meta_text(meta_get(metadata@, "xesam:title"@)),
{
    metadata_string(metadata, "xesam:title")
}

/// The artist: the artist text, or the joined artist list.
pub fn metadata_artist(metadata: &Vec<(String, MetaValue)>) -> (r: String)
    ensures
        r@ == if meta_text(meta_get(metadata@, "xesam:artist"@)).len() > 0 {
            meta_text(meta_get(metadata@, "xesam:artist"@))
        } else {
            match meta_get(metadata@, "xesam:artist"@) {
                Some(MetaValue::Strs(xs)) => joined_texts(texts(xs@)),
                _ => Seq::<char>::empty(),
            }
        },
{
    let artist = metadata_string(metadata, "xesam:artist");
    if !artist.as_str().is_empty() {
        return artist;
    }
    match find_meta(metadata, "xesam:artist") {
        Some(MetaValue::Strs(xs)) => join_texts(xs),
        _ => String::new(),
    }
}

/// A number read from metadata: a 64-bit or 32-bit integer, or an unsigned
/// one capped at the largest `i64`.
pub open spec fn meta_number(v: Option<MetaValue>) -> Option<i64> {
    match v {
        Some(MetaValue::I64(x)) => Some(x),
        Some(MetaValue::I32(x)) => Some(x as i64),
        Some(MetaValue::U64(x)) => Some(if x > i64::MAX as u64 { i64::MAX } else { x as i64 }),
        _ => None,
    }
}

/// A number read from metadata.
pub fn metadata_i64(metadata: &Vec<(String, MetaValue)>, key: &str) -> (r: Option<i64>)
    ensures
        r == meta_number(meta_get(metadata@, key@)),
{
    match find_meta(metadata, key) {
        Some(MetaValue::I64(x)) => Some(*x),
        Some(MetaValue::I32(x)) => Some(*x as i64),
        Some(MetaValue::U64(x)) => Some(
            if *x > i64::MAX as u64 {
                i64::MAX
            } else {
                *x as i64
            },
        ),
        _ => None,
    }
}

/// A duration in microseconds as published: at least zero.
pub fn micros_text(v: Option<i64>) -> (r: String)
    ensures
        r@ == match v {
            Some(x) => if x < 0 { "0"@ } else { decimal(x as nat) },
            None => Seq::<char>::empty(),
        },
{
    match v {
        Some(x) => if x < 0 {
            proof {
                reveal_strlit("0");
            }
            let r = crate::text::u64_to_string(0);
            assert(r@ =~= "0"@) by {
                reveal_strlit("0");
                reveal_with_fuel(decimal, 2);
            }
            r
        } else {
            crate::text::u64_to_string(x as u64)
        },
        None => String::new(),
    }
}

/// The service name without the MPRIS prefix, however often it repeats.
pub open spec fn strip_prefixes(s: Seq<char>, prefix: Seq<char>) -> Seq<char>
    decreases s.len(),
{
    if prefix.len() > 0 && s.len() >= prefix.len() && s.take(prefix.len() as int) == prefix {
        strip_prefixes(s.skip(prefix.len() as int), prefix)
    } else {
        s
    }
}

/// The name of a player: its identity with whitespace collapsed, else the
/// service name without the MPRIS prefix.
pub fn player_identity(identity: Option<&str>, service: &str) -> (r: String)
    ensures
        r@ == match identity {
            Some(i) => if normalize_ws(i@).len() > 0 {
                normalize_ws(i@)
            } else {
                strip_prefixes(service@, "org.mpris.MediaPlayer2."@)
            },
            None => strip_prefixes(service@, "org.mpris.MediaPlayer2."@),
        },
{
    if let Some(i) = identity {
        let n = normalize_ws_str(i);
        if !n.as_str().is_empty() {
            return n;
        }
    }
    let v = crate::text::chars_vec(service);
    let p = crate::text::chars_vec("org.mpris.MediaPlayer2.");
    let ghost pre = "org.mpris.MediaPlayer2."@;
    assert(p@ == pre);
    proof {
        reveal_strlit("org.mpris.MediaPlayer2.");
    }
    assert(p.len() > 0);
    let mut start: usize = 0;
    assert(v@.skip(0) =~= v@);
    while start <= v.len() && v.len() - start >= p.len() && has_prefix_at(&v, &p, start)
        invariant
            v@ == service@,
            p@ == pre,
            p.len() > 0,
            start <= v.len(),
            strip_prefixes(service@, pre) == strip_prefixes(v@.skip(start as int), pre),
        decreases v.len() - start,
    {
        proof {
            let rest = v@.skip(start as int);
            assert(rest.take(p.len() as int) =~= p@);
            assert(rest.skip(p.len() as int) =~= v@.skip(start + p.len()));
        }
        start = start + p.len();
    }
    proof {
        let rest = v@.skip(start as int);
        if rest.len() >= p.len() && rest.take(p.len() as int) == p@ {
            assert forall|k: int| 0 <= k < p.len() implies v@[start + k] == p@[k] by {
                assert(rest.take(p.len() as int)[k] == rest[k]);
            }
        }
    }
    crate::text::string_from(&v.as_slice()[start..v.len()])
}

fn has_prefix_at(v: &Vec<char>, p: &Vec<char>, start: usize) -> (r: bool)
    requires
        start <= v.len(),
        v.len() - start >= p.len(),
    ensures
        r == (v@.skip(start as int).take(p.len() as int) == p@),
{
    let mut k: usize = 0;
    while k < p.len()
        invariant
            k <= p.len(),
            start <= v.len(),
            v.len() - start >= p.len(),
            forall|q: int| 0 <= q < k ==> v@[start + q] == p@[q],
        decreases p.len() - k,
    {
        if v[start + k] != p[k] {
            proof {
                if v@.skip(start as int).take(p.len() as int) == p@ {
                    assert(v@.skip(start as int).take(p.len() as int)[k as int] == v@[start + k]);
                }
            }
            return false;
        }
        k += 1;
    }
    assert(v@.skip(start as int).take(p.len() as int) =~= p@);
    true
}

/// What the provider publishes.
#[derive(Debug)]
pub struct MprisSnapshot {
    pub available: bool,
    pub player: String,
    pub status: String,
    pub title: String,
    pub artist: String,
    pub album: String,
    pub art_url: String,
    pub length_us: String,
    pub position_us: String,
    pub summary: String,
}

/// Whether a snapshot is the one without any player: stopped, "no media",
/// every other text empty.
pub open spec fn is_no_media(r: MprisSnapshot) -> bool {
    &&& !r.available
    &&& r.player@.len() == 0
    &&& r.status@ == "stopped"@
    &&& r.title@.len() == 0
    &&& r.artist@.len() == 0
    &&& r.album@.len() == 0
    &&& r.art_url@.len() == 0
    &&& r.length_us@.len() == 0
    &&& r.position_us@.len() == 0
    &&& r.summary@ == "no media"@
}

/// The snapshot without any player: stopped, "no media".
pub fn no_media() -> (r: MprisSnapshot)
    ensures
        is_no_media(r),
{
    MprisSnapshot {
        available: false,
        player: String::new(),
        status: String::from_str("stopped"),
        title: String::new(),
        artist: String::new(),
        album: String::new(),
        art_url: String::new(),
        length_us: String::new(),
        position_us: String::new(),
        summary: String::from_str("no media"),
    }
}

/// The snapshot of the players found: the one shown, or "no media".
pub fn collect_snapshot(players: &Vec<PlayerSnapshot>) -> (r: MprisSnapshot)
    ensures
        players.len() == 0 <==> is_no_media(r),
        players.len() == 0 <==> !r.available,
        r.available ==> exists|i: int| is_shown(players@, i) && r.player@ == players@[i].identity@ && r.status@
            == players@[i].status@ && r.title@ == players@[i].title@ && r.artist@ == players@[i].artist@
            && r.album@ == players@[i].album@ && r.art_url@ == players@[i].art_url@ && r.length_us@
            == players@[i].length_us@ && r.position_us@ == players@[i].position_us@ && r.summary@
            == summary_of(players@[i]),
{
    proof {
        if players.len() > 0 {
            law_some_player_shown(players@);
        }
    }
    match pick_player(players) {
        None => no_media(),
        Some(i) => {
            let p = &players[i];
            MprisSnapshot {
                available: true,
                player: p.identity.clone(),
                status: p.status.clone(),
                title: p.title.clone(),
                artist: p.artist.clone(),
                album: p.album.clone(),
                art_url: p.art_url.clone(),
                length_us: p.length_us.clone(),
                position_us: p.position_us.clone(),
                summary: build_summary(p),
            }
        },
    }
}

/// The keys and values published for a snapshot.
pub open spec fn mpris_pairs(s: MprisSnapshot) -> Seq<(Seq<char>, Seq<char>)> {
    seq![
        ("data.mpris.available"@, if s.available { "1"@ } else { "0"@ }),
        ("data.mpris.player"@, s.player@),
        ("data.mpris.status"@, s.status@),
        ("data.mpris.title"@, s.title@),
        ("data.mpris.artist"@, s.artist@),
        ("data.mpris.album"@, s.album@),
        ("data.mpris.art_url"@, s.art_url@),
        ("data.mpris.length_us"@, s.length_us@),
        ("data.mpris.position_us"@, s.position_us@),
        ("data.mpris.summary"@, s.summary@),
    ]
}

/// The keys and values published for a snapshot.
pub fn apply_snapshot(s: &MprisSnapshot) -> (r: Vec<(String, String)>)
    ensures
        pairs_view(r@) == mpris_pairs(*s),
{
    let mut v: Vec<(String, String)> = Vec::new();
    assert(pairs_view(v@) =~= seq![]);
    push_pair_text(&mut v, "data.mpris.available", if s.available {
        "1"
    } else {
        "0"
    });
    push_pair_text(&mut v, "data.mpris.player", s.player.as_str());
    push_pair_text(&mut v, "data.mpris.status", s.status.as_str());
    push_pair_text(&mut v, "data.mpris.title", s.title.as_str());
    push_pair_text(&mut v, "data.mpris.artist", s.artist.as_str());
    push_pair_text(&mut v, "data.mpris.album", s.album.as_str());
    push_pair_text(&mut v, "data.mpris.art_url", s.art_url.as_str());
    push_pair_text(&mut v, "data.mpris.length_us", s.length_us.as_str());
    push_pair_text(&mut v, "data.mpris.position_us", s.position_us.as_str());
    push_pair_text(&mut v, "data.mpris.summary", s.summary.as_str());
    assert(pairs_view(v@) =~= mpris_pairs(*s));
    v
}

} // verus!
