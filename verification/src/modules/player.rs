use vstd::prelude::*;
use crate::color::CrabFetchColor;
use crate::config::Configuration;
use crate::module::{entry_styled, module_styled, style_entry, style_module, ModuleError};
use crate::text::{
    append_str, contains_str, copy_str, join_str, replace_str, seq_contains, seq_join_str, seq_replace,
    seq_split, seq_starts_with, starts_with, str_contains, last_piece, str_eq,
};
use crate::util::{bit_if, flag_set, is_flag_set_u32, lemma_flags3};

verus! {

/// A media player and what it plays.
pub struct PlayerInfo {
    pub player: String,
    pub album: String,
    pub album_artists: Vec<String>,
    pub track: String,
    pub track_artists: Vec<String>,
    pub status: String,
}

/// The options of the player entries.
pub struct PlayerConfiguration {
    pub title: String,
    pub title_color: Option<CrabFetchColor>,
    pub title_bold: Option<bool>,
    pub title_italic: Option<bool>,
    pub separator: Option<String>,
    pub ignore: Vec<String>,
    pub format: String,
}

/// Set when the format shows what is played.
pub const PLAYER_INFOFLAG_METADATA: u32 = 1;
/// Set when the format shows the player.
pub const PLAYER_INFOFLAG_PLAYER: u32 = 2;
/// Set when the format shows the playback status.
pub const PLAYER_INFOFLAG_STATUS: u32 = 4;

/// What a player's MPRIS metadata holds, where it holds it.
pub struct MprisMetadata {
    pub album: Option<String>,
    pub title: Option<String>,
    pub artists: Option<Vec<String>>,
    pub album_artists: Option<Vec<String>>,
}

/// A text of the metadata, or `Unknown`.
pub open spec fn text_or_unknown(o: Option<String>) -> Seq<char> {
    match o {
        Some(s) => s@,
        None => "Unknown"@,
    }
}

/// A list of the metadata, or just `Unknown`.
pub open spec fn list_or_unknown(o: Option<Vec<String>>) -> Seq<Seq<char>> {
    match o {
        Some(v) => v.deep_view(),
        None => seq!["Unknown"@],
    }
}

/// A copy of a text of the metadata, or `Unknown`.
pub fn text_or_unknown_of(o: &Option<String>) -> (r: String)
    ensures
        r@ == text_or_unknown(*o),
{
    match o {
        Some(s) => copy_str(s.as_str()),
        None => copy_str("Unknown"),
    }
}

/// A copy of a list of the metadata, or just `Unknown`.
pub fn list_or_unknown_of(o: &Option<Vec<String>>) -> (r: Vec<String>)
    ensures
        r.deep_view() == list_or_unknown(*o),
{
    match o {
        Some(v) => crate::process_info::copy_lines(v),
        None => {
            let mut r: Vec<String> = Vec::new();
            r.push(copy_str("Unknown"));
            assert(r.deep_view() =~= seq!["Unknown"@]);
            r
        },
    }
}

impl PlayerInfo {
    /// Text with the player's placeholders filled in; artists are joined with spaces.
    pub open spec fn filled(&self, text: Seq<char>) -> Seq<char> {
        seq_replace(
            seq_replace(
                seq_replace(
                    seq_replace(
                        seq_replace(seq_replace(text, "{track}"@, self.track@), "{album}"@, self.album@),
                        "{album_artists}"@,
                        seq_join_str(self.album_artists.deep_view(), " "@),
                    ),
                    "{track_artists}"@,
                    seq_join_str(self.track_artists.deep_view(), " "@),
                ),
                "{player}"@,
                self.player@,
            ),
            "{status}"@,
            self.status@,
        )
    }

    /// Nothing known: every field empty.
    pub fn new() -> (r: PlayerInfo)
        ensures
            r.player@ == Seq::<char>::empty() && r.album@ == Seq::<char>::empty() && r.track@ == Seq::<char>::empty()
                && r.status@ == Seq::<char>::empty(),
            r.album_artists@.len() == 0 && r.track_artists@.len() == 0,
    {
        PlayerInfo {
            player: String::new(),
            album: String::new(),
            album_artists: Vec::new(),
            track: String::new(),
            track_artists: Vec::new(),
            status: String::new(),
        }
    }

    /// Fills the player's placeholders of `text`.
    pub fn replace_placeholders(&self, text: &str, _config: &Configuration) -> (r: String)
        ensures
            r@ == self.filled(text@),
    {
        proof {
            reveal_strlit("{track}");
            reveal_strlit("{album}");
            reveal_strlit("{album_artists}");
            reveal_strlit("{track_artists}");
            reveal_strlit("{player}");
            reveal_strlit("{status}");
        }
        let t0 = replace_str(text, "{track}", self.track.as_str());
        let t1 = replace_str(t0.as_str(), "{album}", self.album.as_str());
        let aa = join_str(&self.album_artists, " ");
        let t2 = replace_str(t1.as_str(), "{album_artists}", aa.as_str());
        let ta = join_str(&self.track_artists, " ");
        let t3 = replace_str(t2.as_str(), "{track_artists}", ta.as_str());
        let t4 = replace_str(t3.as_str(), "{player}", self.player.as_str());
        replace_str(t4.as_str(), "{status}", self.status.as_str())
    }

    /// The details that `format` asks for.
    pub fn gen_info_flags(format: &str) -> (r: u32)
        ensures
            flag_set(r, PLAYER_INFOFLAG_METADATA) == (seq_contains(format@, "{track}"@) || seq_contains(format@, "{album}"@)
                || seq_contains(format@, "{track_artists}"@) || seq_contains(format@, "{album_artists}"@)),
            flag_set(r, PLAYER_INFOFLAG_PLAYER) == seq_contains(format@, "{player}"@),
            flag_set(r, PLAYER_INFOFLAG_STATUS) == seq_contains(format@, "{status}"@),
    {
        let meta = str_contains(format, "{track}") || str_contains(format, "{album}") || str_contains(format, "{track_artists}")
            || str_contains(format, "{album_artists}");
        let player = str_contains(format, "{player}");
        let status = str_contains(format, "{status}");
        let mut info_flags: u32 = 0;
        if meta {
            info_flags = info_flags + PLAYER_INFOFLAG_METADATA;
        }
        if player {
            info_flags = info_flags + PLAYER_INFOFLAG_PLAYER;
        }
        if status {
            info_flags = info_flags + PLAYER_INFOFLAG_STATUS;
        }
        proof {
            lemma_flags3(info_flags, meta, player, status);
        }
        info_flags
    }

    /// The entry: title and format with the placeholders filled in.
    pub fn style(&self, config: &Configuration) -> (r: (String, String))
        ensures
            module_styled(
                r,
                *config,
                config.player.title_color,
                config.player.title_bold,
                config.player.title_italic,
                config.player.separator,
                self.filled(config.player.title@),
                self.filled(config.player.format@),
            ),
    {
        let title = self.replace_placeholders(config.player.title.as_str(), config);
        let value = self.replace_placeholders(config.player.format.as_str(), config);
        style_module(
            config,
            &config.player.title_color,
            config.player.title_bold,
            config.player.title_italic,
            &config.player.separator,
            title.as_str(),
            value.as_str(),
        )
    }

    /// The entry when nothing could be found: `Unknown` in the title's placeholders and as the
    /// value.
    pub fn unknown_output(config: &Configuration) -> (r: (String, String))
        ensures
            entry_styled(
                r,
                *config,
                config.player.title_color,
                config.player.title_bold,
                config.player.title_italic,
                config.player.separator,
                seq_replace(
                    seq_replace(
                        seq_replace(
                            seq_replace(
                                seq_replace(
                                    seq_replace(config.player.title@, "{track}"@, "Unknown"@),
                                    "{album}"@,
                                    "Unknown"@,
                                ),
                                "{album_artists}"@,
                                "Unknown"@,
                            ),
                            "{track_artists}"@,
                            "Unknown"@,
                        ),
                        "{player}"@,
                        "Unknown"@,
                    ),
                    "{status}"@,
                    "Unknown"@,
                ),
                "Unknown"@,
            ),
    {
        proof {
            reveal_strlit("{track}");
            reveal_strlit("{album}");
            reveal_strlit("{album_artists}");
            reveal_strlit("{track_artists}");
            reveal_strlit("{player}");
            reveal_strlit("{status}");
        }
        let t0 = replace_str(config.player.title.as_str(), "{track}", "Unknown");
        let t1 = replace_str(t0.as_str(), "{album}", "Unknown");
        let t2 = replace_str(t1.as_str(), "{album_artists}", "Unknown");
        let t3 = replace_str(t2.as_str(), "{track_artists}", "Unknown");
        let t4 = replace_str(t3.as_str(), "{player}", "Unknown");
        let title = replace_str(t4.as_str(), "{status}", "Unknown");
        style_entry(
            config,
            &config.player.title_color,
            config.player.title_bold,
            config.player.title_italic,
            &config.player.separator,
            title.as_str(),
            "Unknown",
        )
    }
}

/// The bus names of MPRIS media players among the names on the session bus; `None` when there
/// is none.
pub open spec fn mpris_players(names: Seq<Seq<char>>) -> Seq<Seq<char>>
    decreases names.len(),
{
    if names.len() == 0 {
        Seq::empty()
    } else if seq_starts_with(names.last(), "org.mpris.MediaPlayer2"@) {
        mpris_players(names.drop_last()).push(names.last())
    } else {
        mpris_players(names.drop_last())
    }
}

/// The bus names of MPRIS media players among the names on the session bus; `None` when there
/// is none.
pub fn detect_current_players(names: &Vec<String>) -> (r: Option<Vec<String>>)
    ensures
        mpris_players(names.deep_view()).len() == 0 ==> r is None,
        mpris_players(names.deep_view()).len() > 0 ==> (r matches Some(v) && v.deep_view() == mpris_players(names.deep_view())),
{
    let ghost nv = names.deep_view();
    let mut players: Vec<String> = Vec::new();
    let mut i: usize = 0;
    assert(nv.take(0) =~= Seq::<Seq<char>>::empty());
    while i < names.len()
        invariant
            nv == names.deep_view(),
            0 <= i <= nv.len(),
            players.deep_view() == mpris_players(nv.take(i as int)),
        decreases nv.len() - i,
    {
        assert(nv.take(i + 1).drop_last() =~= nv.take(i as int));
        assert(nv.take(i + 1).last() == nv[i as int]);
        assert(names@[i as int]@ == nv[i as int]);
        if starts_with(names[i].as_str(), "org.mpris.MediaPlayer2") {
            let ghost before = players.deep_view();
            players.push(copy_str(names[i].as_str()));
            assert(players.deep_view() =~= before.push(nv[i as int]));
        }
        i += 1;
    }
    assert(nv.take(nv.len() as int) =~= nv);
    if players.len() == 0 {
        return None;
    }
    Some(players)
}

/// The short name of a player: the last part of its bus name.
pub fn player_short_name(bus_name: &str) -> (r: String)
    ensures
        r@ == seq_split(bus_name@, '.').last(),
{
    last_piece(bus_name, '.')
}

/// Whether a player is shown: its short name is not on the ignore list.
pub fn player_shown(ignore: &Vec<String>, bus_name: &str) -> (r: bool)
    ensures
        r == !ignore.deep_view().contains(seq_split(bus_name@, '.').last()),
{
    let name = player_short_name(bus_name);
    !contains_str(ignore, name.as_str())
}

/// A player as the entry shows it, from what the player answered: its metadata (when the format
/// shows it and it was read), its identity and its playback status; what is missing is
/// `Unknown`.
pub fn player_info(
    info_flags: u32,
    metadata: &Option<MprisMetadata>,
    identity: Result<String, String>,
    status: Result<String, String>,
) -> (r: PlayerInfo)
    ensures
        ({
            let meta = flag_set(info_flags, PLAYER_INFOFLAG_METADATA) && metadata is Some;
            &&& r.player@ == (if flag_set(info_flags, PLAYER_INFOFLAG_PLAYER) && identity is Ok { identity->Ok_0@ } else { "Unknown"@ })
            &&& r.status@ == (if flag_set(info_flags, PLAYER_INFOFLAG_STATUS) && status is Ok { status->Ok_0@ } else { "Unknown"@ })
            &&& r.album@ == (if meta { text_or_unknown(metadata->Some_0.album) } else { "Unknown"@ })
            &&& r.track@ == (if meta { text_or_unknown(metadata->Some_0.title) } else { "Unknown"@ })
            &&& r.track_artists.deep_view() == (if meta { list_or_unknown(metadata->Some_0.artists) } else { seq!["Unknown"@] })
            &&& r.album_artists.deep_view() == (if meta { list_or_unknown(metadata->Some_0.album_artists) } else { seq!["Unknown"@] })
        }),
{
    let unknown_list = list_or_unknown_of(&None);
    let meta = is_flag_set_u32(info_flags, PLAYER_INFOFLAG_METADATA) && metadata.is_some();
    let player = if is_flag_set_u32(info_flags, PLAYER_INFOFLAG_PLAYER) {
        match identity {
            Ok(r) => r,
            Err(_) => copy_str("Unknown"),
        }
    } else {
        copy_str("Unknown")
    };
    let status_text = if is_flag_set_u32(info_flags, PLAYER_INFOFLAG_STATUS) {
        match status {
            Ok(r) => r,
            Err(_) => copy_str("Unknown"),
        }
    } else {
        copy_str("Unknown")
    };
    match metadata {
        Some(m) => {
            if meta {
                return PlayerInfo {
                    player,
                    album: text_or_unknown_of(&m.album),
                    album_artists: list_or_unknown_of(&m.album_artists),
                    track: text_or_unknown_of(&m.title),
                    track_artists: list_or_unknown_of(&m.artists),
                    status: status_text,
                };
            }
        },
        None => {},
    }
    PlayerInfo {
        player,
        album: copy_str("Unknown"),
        album_artists: list_or_unknown_of(&None),
        track: copy_str("Unknown"),
        track_artists: unknown_list,
        status: status_text,
    }
}

} // verus!
