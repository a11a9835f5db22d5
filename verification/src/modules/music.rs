use vstd::prelude::*;
use crate::color::{lowercase, to_lowercase, CrabFetchColor};
use crate::module::ModuleError;
use crate::modules::player::{list_or_unknown, list_or_unknown_of, text_or_unknown, text_or_unknown_of, MprisMetadata};
use crate::text::{append_str, copy_str, ends_with, join_str, replace_str, seq_ends_with, seq_join_str, seq_replace, str_eq};

verus! {

/// What a chosen media player plays.
pub struct MusicInfo {
    pub album: String,
    pub album_artists: Vec<String>,
    pub track: String,
    pub track_artists: Vec<String>,
}

/// The options of the music entry.
pub struct MusicConfiguration {
    pub title: String,
    pub title_color: Option<CrabFetchColor>,
    pub title_bold: Option<bool>,
    pub title_italic: Option<bool>,
    pub seperator: Option<String>,
    pub format: String,
    pub player: String,
}

impl MusicInfo {
    /// Text with the music placeholders filled in; artists are joined with spaces.
    pub open spec fn filled(&self, text: Seq<char>) -> Seq<char> {
        seq_replace(
            seq_replace(
                seq_replace(seq_replace(text, "{track}"@, self.track@), "{album}"@, self.album@),
                "{album_artists}"@,
                seq_join_str(self.album_artists.deep_view(), " "@),
            ),
            "{track_artists}"@,
            seq_join_str(self.track_artists.deep_view(), " "@),
        )
    }

    /// Nothing known.
    pub fn new() -> (r: MusicInfo)
        ensures
            r.album@ == Seq::<char>::empty() && r.track@ == Seq::<char>::empty(),
            r.album_artists@.len() == 0 && r.track_artists@.len() == 0,
    {
        MusicInfo { album: String::new(), album_artists: Vec::new(), track: String::new(), track_artists: Vec::new() }
    }

    /// Fills the music placeholders of the format `text`.
    pub fn replace_placeholders(&self, text: &str) -> (r: String)
        ensures
            r@ == self.filled(text@),
    {
        proof {
            reveal_strlit("{track}");
            reveal_strlit("{album}");
            reveal_strlit("{album_artists}");
            reveal_strlit("{track_artists}");
        }
        let album_artists = join_str(&self.album_artists, " ");
        let track_artists = join_str(&self.track_artists, " ");
        let t0 = replace_str(text, "{track}", self.track.as_str());
        let t1 = replace_str(t0.as_str(), "{album}", self.album.as_str());
        let t2 = replace_str(t1.as_str(), "{album_artists}", album_artists.as_str());
        replace_str(t2.as_str(), "{track_artists}", track_artists.as_str())
    }
}

/// The bus name of the configured player: `org.mpris.MediaPlayer2.` and its name in lowercase;
/// an empty name makes no valid destination.
pub fn music_destination(player: &str) -> (r: Result<String, ModuleError>)
    ensures
        ({
            let dest = "org.mpris.MediaPlayer2."@ + lowercase(player@);
            if seq_ends_with(dest, "."@) {
                r matches Err(e) && e.module_name@ == "Music"@ && e.message@
                    == "You have specified your player in an invalid way, tried to use a invalid DBus destination."@
            } else {
                r matches Ok(d) && d@ == dest
            }
        }),
{
    let mut dest = copy_str("org.mpris.MediaPlayer2.");
    let lower = to_lowercase(player);
    append_str(&mut dest, lower.as_str());
    if ends_with(dest.as_str(), ".") {
        return Err(ModuleError::new("Music", copy_str("You have specified your player in an invalid way, tried to use a invalid DBus destination.")));
    }
    Ok(dest)
}

/// The music from the player's metadata (or the message of the error met asking for it).
pub fn music_from_metadata(metadata: Result<MprisMetadata, String>) -> (r: Result<MusicInfo, ModuleError>)
    ensures
        match metadata {
            Err(m) => r matches Err(e) && e.module_name@ == "Music"@ && e.message@ == (if m@ == "The name is not activatable"@ {
                "You have specified a player that doesn't exist, isn't active, or doesn't implement MPRIS."@
            } else {
                "Unable to request player property: "@ + m@
            }),
            Ok(md) => r matches Ok(x) && x.album@ == text_or_unknown(md.album) && x.track@ == text_or_unknown(md.title)
                && x.track_artists.deep_view() == list_or_unknown(md.artists) && x.album_artists.deep_view()
                == list_or_unknown(md.album_artists),
        },
{
    match metadata {
        Err(m) => {
            if str_eq(m.as_str(), "The name is not activatable") {
                return Err(ModuleError::new("Music", copy_str("You have specified a player that doesn't exist, isn't active, or doesn't implement MPRIS.")));
            }
            let mut msg = copy_str("Unable to request player property: ");
            append_str(&mut msg, m.as_str());
            Err(ModuleError::new("Music", msg))
        },
        Ok(md) => Ok(MusicInfo {
            album: text_or_unknown_of(&md.album),
            album_artists: list_or_unknown_of(&md.album_artists),
            track: text_or_unknown_of(&md.title),
            track_artists: list_or_unknown_of(&md.artists),
        }),
    }
}

} // verus!
