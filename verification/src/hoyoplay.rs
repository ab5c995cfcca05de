//! The games the launcher knows: their names, executables and data
//! folders by game and channel, and the registry values it clears.
use vstd::prelude::*;
use crate::download::text_of;
use crate::text::{contains_seq, decimal, push_str, str_contains};

verus! {

/// A number as the front end sends it: its value when it is a whole
/// number that fits in `u64`, and its text.
pub struct JsonNumber {
    pub as_u64: Option<u64>,
    pub text: String,
}

impl JsonNumber {
    /// A whole number is written in decimal.
    pub open spec fn wf(&self) -> bool {
        self.as_u64 matches Some(n) ==> self.text@ == decimal(n as nat)
    }

    /// The number `n`.
    pub fn from_u64(n: u64) -> (r: JsonNumber)
        ensures
            r.wf(),
            r.as_u64 == Some(n),
    {
        JsonNumber { as_u64: Some(n), text: crate::text::u64_to_decimal(n) }
    }
}

/// The executable of a game on a channel (1: global, 2: China).
pub open spec fn executable_name(game: Option<u64>, channel: Option<u64>) -> Option<Seq<char>> {
    match (game, channel) {
        (Some(1), Some(1)) => Some("GenshinImpact.exe"@),
        (Some(1), Some(2)) => Some("YuanShen.exe"@),
        (Some(2), Some(1)) => Some("StarRail.exe"@),
        (Some(2), Some(2)) => Some("StarRail.exe"@),
        (Some(3), Some(1)) => Some("BlueArchive.exe"@),
        _ => None,
    }
}

/// The data folder of a game on a channel.
pub open spec fn data_folder_name(game: Option<u64>, channel: Option<u64>) -> Option<Seq<char>> {
    match (game, channel) {
        (Some(1), Some(1)) => Some("GenshinImpact_Data"@),
        (Some(1), Some(2)) => Some("YuanShen_Data"@),
        (Some(2), Some(1)) => Some("StarRail_Data"@),
        (Some(2), Some(2)) => Some("StarRail_Data"@),
        (Some(3), Some(1)) => Some("BlueArchive_Data"@),
        _ => None,
    }
}

/// A game's executable and its data folder go together: a game and
/// channel have an executable exactly when they have a data folder, and
/// the executable is the data folder's name without `_Data`, then `.exe`
/// (`GenshinImpact_Data` holds the data of `GenshinImpact.exe`).
pub proof fn lemma_executable_matches_data_folder(game: Option<u64>, channel: Option<u64>)
    ensures
        executable_name(game, channel) is Some <==> data_folder_name(game, channel) is Some,
        executable_name(game, channel) matches Some(e) ==> data_folder_name(game, channel)
            matches Some(d) && d.len() > 5 && e == d.subrange(0, d.len() - 5) + ".exe"@ && d.subrange(
            d.len() - 5,
            d.len() as int,
        ) == "_Data"@,
{
    reveal_strlit(".exe");
    reveal_strlit("_Data");
    reveal_strlit("GenshinImpact.exe");
    reveal_strlit("GenshinImpact_Data");
    reveal_strlit("YuanShen.exe");
    reveal_strlit("YuanShen_Data");
    reveal_strlit("StarRail.exe");
    reveal_strlit("StarRail_Data");
    reveal_strlit("BlueArchive.exe");
    reveal_strlit("BlueArchive_Data");
    match (game, channel) {
        (Some(1), Some(1)) => {
            let d = "GenshinImpact_Data"@;
            assert(d.subrange(0, d.len() - 5) + ".exe"@ =~= "GenshinImpact.exe"@);
            assert(d.subrange(d.len() - 5, d.len() as int) =~= "_Data"@);
        },
        (Some(1), Some(2)) => {
            let d = "YuanShen_Data"@;
            assert(d.subrange(0, d.len() - 5) + ".exe"@ =~= "YuanShen.exe"@);
            assert(d.subrange(d.len() - 5, d.len() as int) =~= "_Data"@);
        },
        (Some(2), Some(1)) | (Some(2), Some(2)) => {
            let d = "StarRail_Data"@;
            assert(d.subrange(0, d.len() - 5) + ".exe"@ =~= "StarRail.exe"@);
            assert(d.subrange(d.len() - 5, d.len() as int) =~= "_Data"@);
        },
        (Some(3), Some(1)) => {
            let d = "BlueArchive_Data"@;
            assert(d.subrange(0, d.len() - 5) + ".exe"@ =~= "BlueArchive.exe"@);
            assert(d.subrange(d.len() - 5, d.len() as int) =~= "_Data"@);
        },
        _ => {},
    }
}

/// The name of a game.
pub open spec fn game_name(game: Option<u64>) -> Option<Seq<char>> {
    match game {
        Some(1) => Some("Genshin Impact"@),
        Some(2) => Some("Honkai: Star Rail"@),
        Some(3) => Some("Blue Archive"@),
        Some(4) => Some("Stella Sora"@),
        _ => None,
    }
}

/// The error for a game and channel the launcher does not know.
pub open spec fn unsupported_pair(game_id: Seq<char>, channel_id: Seq<char>) -> Seq<char> {
    "Unsupported game ID: "@ + game_id + " with channel ID: "@ + channel_id
}

fn unsupported_pair_message(game_id: &JsonNumber, channel_id: &JsonNumber) -> (r: String)
    ensures
        r@ == unsupported_pair(game_id.text@, channel_id.text@),
{
    let mut m = String::new();
    push_str(&mut m, "Unsupported game ID: ");
    push_str(&mut m, game_id.text.as_str());
    push_str(&mut m, " with channel ID: ");
    push_str(&mut m, channel_id.text.as_str());
    m
}

/// The executable of a game on a channel.
pub fn get_game_executable_names(game_id: &JsonNumber, channel_id: &JsonNumber) -> (r: Result<
    String,
    String,
>)
    ensures
        match executable_name(game_id.as_u64, channel_id.as_u64) {
            Some(n) => r matches Ok(s) && s@ == n,
            None => r matches Err(e) && e@ == unsupported_pair(game_id.text@, channel_id.text@),
        },
{
    match (game_id.as_u64, channel_id.as_u64) {
        (Some(1), Some(1)) => Ok(text_of("GenshinImpact.exe")),
        (Some(1), Some(2)) => Ok(text_of("YuanShen.exe")),
        (Some(2), Some(1)) => Ok(text_of("StarRail.exe")),
        (Some(2), Some(2)) => Ok(text_of("StarRail.exe")),
        (Some(3), Some(1)) => Ok(text_of("BlueArchive.exe")),
        _ => Err(unsupported_pair_message(game_id, channel_id)),
    }
}

/// The data folder of a game on a channel.
pub fn get_game_folder(game_id: &JsonNumber, channel_id: &JsonNumber) -> (r: Result<String, String>)
    ensures
        match data_folder_name(game_id.as_u64, channel_id.as_u64) {
            Some(n) => r matches Ok(s) && s@ == n,
            None => r matches Err(e) && e@ == unsupported_pair(game_id.text@, channel_id.text@),
        },
{
    match (game_id.as_u64, channel_id.as_u64) {
        (Some(1), Some(1)) => Ok(text_of("GenshinImpact_Data")),
        (Some(1), Some(2)) => Ok(text_of("YuanShen_Data")),
        (Some(2), Some(1)) => Ok(text_of("StarRail_Data")),
        (Some(2), Some(2)) => Ok(text_of("StarRail_Data")),
        (Some(3), Some(1)) => Ok(text_of("BlueArchive_Data")),
        _ => Err(unsupported_pair_message(game_id, channel_id)),
    }
}

/// The name of a game.
pub fn get_game_name(game_id: &JsonNumber) -> (r: Result<String, String>)
    ensures
        match game_name(game_id.as_u64) {
            Some(n) => r matches Ok(s) && s@ == n,
            None => r matches Err(e) && e@ == "Unsupported game ID: "@ + game_id.text@,
        },
{
    match game_id.as_u64 {
        Some(1) => Ok(text_of("Genshin Impact")),
        Some(2) => Ok(text_of("Honkai: Star Rail")),
        Some(3) => Ok(text_of("Blue Archive")),
        Some(4) => Ok(text_of("Stella Sora")),
        _ => {
            let mut m = String::new();
            push_str(&mut m, "Unsupported game ID: ");
            push_str(&mut m, game_id.text.as_str());
            Err(m)
        },
    }
}

/// Checks a game folder: configured, existing, and a directory.
pub fn validate_game_folder_path(
    game_id: &JsonNumber,
    game_folder_path: &str,
    exists: bool,
    is_dir: bool,
) -> (r: Result<(), String>)
    ensures
        game_folder_path@.len() == 0 ==> (r matches Err(e) && e@ == "Game folder path not set for game "@
            + game_id.text@ + ". Please configure it in game settings."@),
        game_folder_path@.len() > 0 && !exists ==> (r matches Err(e) && e@ == "Game folder not found: "@
            + game_folder_path@ + ". Please verify the path in game settings."@),
        game_folder_path@.len() > 0 && exists && !is_dir ==> (r matches Err(e) && e@
            == "Game folder path is not a directory: "@ + game_folder_path@
            + ". Please verify the path in game settings."@),
        game_folder_path@.len() > 0 && exists && is_dir ==> r is Ok,
{
    let mut m = String::new();
    if game_folder_path.unicode_len() == 0 {
        push_str(&mut m, "Game folder path not set for game ");
        push_str(&mut m, game_id.text.as_str());
        push_str(&mut m, ". Please configure it in game settings.");
        return Err(m);
    }
    if !exists {
        push_str(&mut m, "Game folder not found: ");
        push_str(&mut m, game_folder_path);
        push_str(&mut m, ". Please verify the path in game settings.");
        return Err(m);
    }
    if !is_dir {
        push_str(&mut m, "Game folder path is not a directory: ");
        push_str(&mut m, game_folder_path);
        push_str(&mut m, ". Please verify the path in game settings.");
        return Err(m);
    }
    Ok(())
}

/// A registry value that keeps HoyoPass on, to be deleted.
pub open spec fn is_hoyo_pass_value(name: Seq<char>) -> bool {
    contains_seq(name, "HOYO_ACCOUNTS_MIGRATED_TO_HOYOPASS_PROD_OVERSEA_h"@) || contains_seq(
        name,
        "HOYO_PASS_ENABLE"@,
    ) || contains_seq(name, "HOYO_NEW_USERCENTER_ABTEST"@)
}

/// Whether a registry value under a game's key is a HoyoPass value.
pub fn should_delete_hoyo_pass_value(name: &str) -> (r: bool)
    ensures
        r == is_hoyo_pass_value(name@),
{
    str_contains(name, "HOYO_ACCOUNTS_MIGRATED_TO_HOYOPASS_PROD_OVERSEA_h") || str_contains(
        name,
        "HOYO_PASS_ENABLE",
    ) || str_contains(name, "HOYO_NEW_USERCENTER_ABTEST")
}

/// The full registry path reported for a deleted value.
pub fn hoyo_pass_entry_path(game_key: &str, value_name: &str) -> (r: String)
    ensures
        r@ == "HKEY_CURRENT_USER\\Software\\miHoYo\\"@ + game_key@ + "\\"@ + value_name@,
{
    let mut m = String::new();
    push_str(&mut m, "HKEY_CURRENT_USER\\Software\\miHoYo\\");
    push_str(&mut m, game_key);
    push_str(&mut m, "\\");
    push_str(&mut m, value_name);
    m
}

/// The registry key where HoyoPlay records a game.
pub fn hoyoplay_game_key(name_code: &str) -> (r: String)
    ensures
        r@ == "Software\\Cognosphere\\HYP\\1_0\\"@ + name_code@,
{
    let mut m = String::new();
    push_str(&mut m, "Software\\Cognosphere\\HYP\\1_0\\");
    push_str(&mut m, name_code);
    m
}

} // verus!
