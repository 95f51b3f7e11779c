//! Paths of the assets the surrounding shell loads.  The simulation core
//! only needs the handles to exist; the shell resolves these paths.

use vstd::prelude::*;

verus! {

/// Where each asset lives, relative to the asset root.
pub struct AssetPaths {
    pub fira_sans: &'static str,
    pub audio_collect: &'static str,
    pub audio_collide: &'static str,
    pub audio_collide_obstacle: &'static str,
    pub audio_menu_music: &'static str,
    pub audio_music: &'static str,
    pub cloud_001: &'static str,
    pub player_left: &'static str,
    pub player_right: &'static str,
    pub laser: &'static str,
    pub grass: &'static str,
}

impl AssetPaths {
    /// The stock asset layout.
    pub fn new() -> (r: Self)
        ensures
            r.fira_sans@ == "fonts/FiraSans-Bold.ttf"@,
            r.audio_collect@ == "audio/collect.ogg"@,
            r.audio_collide@ == "audio/collide.ogg"@,
            r.audio_collide_obstacle@ == "audio/collide_obstacle.ogg"@,
            r.audio_menu_music@ == "audio/menu_music.ogg"@,
            r.audio_music@ == "audio/music.ogg"@,
            r.cloud_001@ == "textures/cloud_001.png"@,
            r.player_left@ == "textures/player_left.png"@,
            r.player_right@ == "textures/player_right.png"@,
            r.laser@ == "textures/laser.png"@,
            r.grass@ == "textures/grass.png"@,
    {
        AssetPaths {
            fira_sans: "fonts/FiraSans-Bold.ttf",
            audio_collect: "audio/collect.ogg",
            audio_collide: "audio/collide.ogg",
            audio_collide_obstacle: "audio/collide_obstacle.ogg",
            audio_menu_music: "audio/menu_music.ogg",
            audio_music: "audio/music.ogg",
            cloud_001: "textures/cloud_001.png",
            player_left: "textures/player_left.png",
            player_right: "textures/player_right.png",
            laser: "textures/laser.png",
            grass: "textures/grass.png",
        }
    }
}

} // verus!
