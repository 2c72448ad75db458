//! The anadius.cfg emulator configuration written into the game folder.
use vstd::prelude::*;
use crate::text::{contains, occurs_at, push_str, str_eq};

verus! {

/// Text of anadius.cfg up to the game version.
pub const CFG_HEAD: &'static str = r#""Config2"
{
    "Game"
    {
        "Name"                  "EA SPORTS FC 26 Showcase"
        "Version"               ""#;

/// Text between the game version and the DLL hash.
pub const CFG_AFTER_VERSION: &'static str = r#""
        "ContentId"             "16425677_sc"
        "DenuvoToken"           "PASTE_A_VALID_DENUVO_TOKEN_HERE"
        "DenuvoExeHash"         "26311c7c7af3e6acccfe35c8109051c0dc517d21"
        "DenuvoDllHash"         ""#;

/// Text between the DLL hash and the line of the extra DLL to load.
pub const CFG_AFTER_HASH: &'static str = r#""
        "KeyForLicense"         "WHVu9VkrkjKPTcDIjCceww=="
        "Languages"             "ar_SA,cs_CZ,da_DK,de_DE,en_US,es_ES,es_MX,fr_FR,it_IT,ja_JP,ko_KR,nl_NL,no_NO,pl_PL,pt_BR,pt_PT,ru_RU,sv_SE,tr_TR,zh_CN,zh_HK"
        "Language"              "all"
        "LanguageRegistryKey"   "SOFTWARE\\EA Sports\\EA SPORTS FC 26\\Locale"
    }
    "Emulator"
    {
"#;

/// The key of the extra DLL to load, up to its value's opening quote.
pub const LOAD_EXTRA_DLLS: &'static str = r#"        "LoadExtraDLLs"         ""#;

/// Text after the extra DLL to load.
pub const CFG_TAIL: &'static str = r#""
        "LoadExtraDLLsFromMain" "FAKE/CryptBase0.dll"
        "PretendConnected"      "false"
        "FakeAuth"              "false"
    }
    "User"
    {
        "Username"              "3LAA_RA'FAT"
    }
    "Achievements"
    {
        "AchievementsSet"       "50072_16425677_50844"
        "AchievementNames"
        {
            "1"                 "Masterplan"
            "2"                 "Treble Glory"
            "3"                 "Challenge Accepted"
            "4"                 "Expect the Unexpected"
            "5"                 "Legend on the Pitch"
            "6"                 "European Glory"
            "7"                 "Tactical Sync"
            "8"                 "Campeones"
            "9"                 "We're Going Up"
            "10"                "Top of the Pyramid"
            "11"                "First of Many"
            "12"                "Collect Them All"
            "13"                "Very Particular Set of Skills"
            "14"                "Shop 'Til You Drop"
            "15"                "Gold Standard"
            "16"                "In a Rush"
            "17"                "Football Friend"
            "18"                "KO Kings"
            "19"                "Dead-ball Specialist"
            "20"                "Intuition and Execution"
            "21"                "Power Shot"
            "22"                "Bring It On"
            "23"                "Surgical Aim"
            "24"                "Bullseye"
            "25"                "PlayStyles+"
            "26"                "Tactical Mastermind"
            "27"                "Clean Sheet"
            "28"                "Authenticity"
            "29"                "Squad Builder Extraordinaire"
            "30"                "Bounty Buster"
            "31"                "Full Chemistry Charge"
            "32"                "Tactical Designer"
            "33"                "Defensive Dynamo"
            "34"                "Final Evolutionary Stage"
            "35"                "Champion's Debut"
            "36"                "Mythic Milestone"
            "37"                "Makeover Maestro"
            "38"                "Event Explorer"
            "39"                "European Legend"
            "40"                "Best of Five"
            "41"                "Football is Everything"
            "42"                "One Season, wonderful"
            "43"                "All Aboard the Premium Track"
        }
    }
}"#;

/// The extra DLL that the emulator loads for the chosen package.
pub open spec fn spec_config_dll(selection: Seq<char>) -> Seq<char> {
    if selection == "FMM"@ { "EAAC.dll"@ } else { "FCLiveEditor.DLL"@ }
}

/// The extra DLL that the emulator loads for the chosen package.
pub fn config_dll(selection: &str) -> (r: &'static str)
    ensures
        r@ == spec_config_dll(selection@),
{
    if str_eq(selection, "FMM") { "EAAC.dll" } else { "FCLiveEditor.DLL" }
}

/// anadius.cfg for a game version, the SHA-1 of dbdata.dll and a package.
pub open spec fn spec_anadius_cfg(version: Seq<char>, dll_hash: Seq<char>, selection: Seq<char>) -> Seq<char> {
    CFG_HEAD@ + version + CFG_AFTER_VERSION@ + dll_hash + CFG_AFTER_HASH@ + LOAD_EXTRA_DLLS@ + spec_config_dll(selection) + CFG_TAIL@
}

/// The content of anadius.cfg.
pub fn anadius_cfg(version: &str, dll_hash: &str, selection: &str) -> (r: String)
    ensures
        r@ == spec_anadius_cfg(version@, dll_hash@, selection@),
{
    let mut r = String::new();
    push_str(&mut r, CFG_HEAD);
    push_str(&mut r, version);
    push_str(&mut r, CFG_AFTER_VERSION);
    push_str(&mut r, dll_hash);
    push_str(&mut r, CFG_AFTER_HASH);
    push_str(&mut r, LOAD_EXTRA_DLLS);
    push_str(&mut r, config_dll(selection));
    push_str(&mut r, CFG_TAIL);
    proof {
        assert(r@ =~= spec_anadius_cfg(version@, dll_hash@, selection@));
    }
    r
}

/// The emulator loads the chosen package's DLL: the `LoadExtraDLLs` line
/// of the configuration names `EAAC.dll` for FMM and `FCLiveEditor.DLL`
/// for any other selection, so the two packages get different files.
pub proof fn cfg_loads_package_dll(version: Seq<char>, dll_hash: Seq<char>, selection: Seq<char>)
    ensures
        contains(
            spec_anadius_cfg(version, dll_hash, selection),
            LOAD_EXTRA_DLLS@ + (if selection == "FMM"@ { "EAAC.dll"@ } else { "FCLiveEditor.DLL"@ }),
        ),
        selection != "FMM"@ ==> spec_anadius_cfg(version, dll_hash, selection)
            != spec_anadius_cfg(version, dll_hash, "FMM"@),
{
    reveal_strlit("EAAC.dll");
    reveal_strlit("FCLiveEditor.DLL");
    let cfg = spec_anadius_cfg(version, dll_hash, selection);
    let head = CFG_HEAD@ + version + CFG_AFTER_VERSION@ + dll_hash + CFG_AFTER_HASH@;
    let line = LOAD_EXTRA_DLLS@ + spec_config_dll(selection);
    assert(cfg =~= head + line + CFG_TAIL@);
    assert(cfg.subrange(head.len() as int, head.len() + line.len() as int) =~= line);
    assert(occurs_at(cfg, line, head.len() as int));
    if selection != "FMM"@ {
        assert(cfg.len() != spec_anadius_cfg(version, dll_hash, "FMM"@).len());
    }
}

} // verus!
