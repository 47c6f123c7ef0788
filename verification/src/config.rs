//! Process configuration.

use vstd::prelude::*;

verus! {

/// The settings read at start-up.
#[derive(Debug)]
pub struct Config {
    bevy_url: String,
    plex_url: String,
    plex_token: String,
    pub mount_point: String,
}

/// What a [`Config`] holds, as plain text.
pub struct ConfigView {
    pub bevy_url: Seq<char>,
    pub plex_url: Seq<char>,
    pub plex_token: Seq<char>,
    pub mount_point: Seq<char>,
}

impl View for Config {
    type V = ConfigView;

    closed spec fn view(&self) -> ConfigView {
        ConfigView {
            bevy_url: self.bevy_url@,
            plex_url: self.plex_url@,
            plex_token: self.plex_token@,
            mount_point: self.mount_point@,
        }
    }
}

impl Config {
    /// Bundles the four settings.
    pub fn new(
        bevy_url: String,
        plex_url: String,
        plex_token: String,
        mount_point: String,
    ) -> (config: Config)
        ensures
            config@ == (ConfigView {
                bevy_url: bevy_url@,
                plex_url: plex_url@,
                plex_token: plex_token@,
                mount_point: mount_point@,
            }),
    {
        Config { bevy_url, plex_url, plex_token, mount_point }
    }

    /// Address of the media index.
    pub fn bevy_url(&self) -> (url: &String)
        ensures
            url@ == self@.bevy_url,
    {
        &self.bevy_url
    }

    /// Address of the media server.
    pub fn plex_url(&self) -> (url: &String)
        ensures
            url@ == self@.plex_url,
    {
        &self.plex_url
    }

    /// Access token for the media server.
    pub fn plex_token(&self) -> (token: &String)
        ensures
            token@ == self@.plex_token,
    {
        &self.plex_token
    }

    /// Where the filesystem is mounted.
    pub fn mount_point(&self) -> (path: &String)
        ensures
            path@ == self@.mount_point,
    {
        &self.mount_point
    }
}

} // verus!
