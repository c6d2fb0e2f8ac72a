//! The node's configuration and the user's settings.
use vstd::prelude::*;

use crate::crypto::ed25519_public_key_of;
use crate::db::user::I2PAddress;
use crate::types::{PrivateKey, PublicKey, Timestamp};

verus! {

pub const DEFAULT_SAM_TCP_PORT: u16 = 7656;

pub const DEFAULT_SAM_UDP_PORT: u16 = 7655;

/// The node's key pair: a secret key and the public key that matches it.
#[derive(Debug, Clone)]
pub struct KeyPair {
    private_key: PrivateKey,
    public_key: PublicKey,
}

impl KeyPair {
    pub closed spec fn spec_private_key(&self) -> Seq<u8> {
        self.private_key@
    }

    pub fn private_key(&self) -> (r: &PrivateKey)
        ensures
            r@ == self.spec_private_key(),
    {
        &self.private_key
    }

    pub fn public_key(&self) -> (r: &PublicKey)
        ensures
            r@ == self.spec_public_key(),
    {
        &self.public_key
    }

    pub closed spec fn spec_public_key(&self) -> Seq<u8> {
        self.public_key@
    }

    pub fn new(private_key: PrivateKey) -> (r: KeyPair)
        ensures
            r.spec_private_key() == private_key@,
            r.spec_public_key() == ed25519_public_key_of(private_key@),
    {
        let public_key = private_key.public_key();
        KeyPair { private_key, public_key }
    }
}

/// How the node schedules its syncs.
#[derive(Debug, Clone, Copy, PartialEq, Eq, Structural)]
pub struct SchedulerConfig {
    /// The time between two full syncs with a node, in seconds.
    pub full_sync_interval: Timestamp,
}

impl Default for SchedulerConfig {
    /// Five minutes between full syncs.
    fn default() -> (r: SchedulerConfig)
        ensures
            r.full_sync_interval == Timestamp(300),
    {
        SchedulerConfig { full_sync_interval: Timestamp::new(300) }
    }
}

/// How the node reaches the I2P network: through an embedded router or
/// another, and on which SAM ports.
#[derive(Debug, Clone, Copy, PartialEq, Eq, Structural)]
pub struct I2PRouterConfig {
    use_embedded_router: bool,
    sam_tcp_port: u16,
    sam_udp_port: u16,
}

impl I2PRouterConfig {
    pub closed spec fn spec_use_embedded_router(&self) -> bool {
        self.use_embedded_router
    }

    pub closed spec fn spec_sam_tcp_port(&self) -> u16 {
        self.sam_tcp_port
    }

    pub closed spec fn spec_sam_udp_port(&self) -> u16 {
        self.sam_udp_port
    }

    pub fn sam_tcp_port(&self) -> (r: u16)
        ensures
            r == self.spec_sam_tcp_port(),
    {
        self.sam_tcp_port
    }

    pub fn set_sam_tcp_port(&mut self, port: u16)
        ensures
            final(self).spec_sam_tcp_port() == port,
            final(self).spec_sam_udp_port() == old(self).spec_sam_udp_port(),
            final(self).spec_use_embedded_router() == old(self).spec_use_embedded_router(),
    {
        self.sam_tcp_port = port;
    }

    pub fn sam_udp_port(&self) -> (r: u16)
        ensures
            r == self.spec_sam_udp_port(),
    {
        self.sam_udp_port
    }

    pub fn set_sam_udp_port(&mut self, port: u16)
        ensures
            final(self).spec_sam_udp_port() == port,
            final(self).spec_sam_tcp_port() == old(self).spec_sam_tcp_port(),
            final(self).spec_use_embedded_router() == old(self).spec_use_embedded_router(),
    {
        self.sam_udp_port = port;
    }

    pub fn use_embedded_router(&self) -> (r: bool)
        ensures
            r == self.spec_use_embedded_router(),
    {
        self.use_embedded_router
    }

    pub fn set_use_embedded_router(&mut self, use_embedded_router: bool)
        ensures
            final(self).spec_use_embedded_router() == use_embedded_router,
            final(self).spec_sam_tcp_port() == old(self).spec_sam_tcp_port(),
            final(self).spec_sam_udp_port() == old(self).spec_sam_udp_port(),
    {
        self.use_embedded_router = use_embedded_router;
    }
}

impl Default for I2PRouterConfig {
    /// The embedded router, on the usual SAM ports.
    fn default() -> (r: I2PRouterConfig)
        ensures
            r.spec_use_embedded_router(),
            r.spec_sam_tcp_port() == DEFAULT_SAM_TCP_PORT,
            r.spec_sam_udp_port() == DEFAULT_SAM_UDP_PORT,
    {
        I2PRouterConfig {
            use_embedded_router: true,
            sam_tcp_port: DEFAULT_SAM_TCP_PORT,
            sam_udp_port: DEFAULT_SAM_UDP_PORT,
        }
    }
}

/// Where the metadata of indexes comes from.
#[derive(Debug, Clone, Copy, PartialEq, Eq, Structural)]
pub enum MetadataSource {
    LocalOnly,
    Mangadex,
}

/// How titles are filtered.
#[derive(Debug, Clone, Copy, PartialEq, Eq, Structural)]
pub enum WordFilter {
    /// No filter.
    Disabled,
    Regex,
}

/// The node's configuration.
#[derive(Debug, Clone)]
pub struct AkarekoConfig {
    keypair: KeyPair,
    eepsite_key: String,
    eepsite_address: I2PAddress,
    dev_mode: bool,
    max_client_connections: u16,
    scheduler_config: SchedulerConfig,
    is_relay: bool,
    save_metadata_on_disk: bool,
    pub metadata_source: MetadataSource,
    word_filter: WordFilter,
}

impl AkarekoConfig {
    pub closed spec fn spec_keypair(&self) -> KeyPair {
        self.keypair
    }

    pub closed spec fn spec_eepsite_key(&self) -> Seq<char> {
        self.eepsite_key@
    }

    pub closed spec fn spec_eepsite_address(&self) -> Seq<char> {
        self.eepsite_address@
    }

    pub closed spec fn spec_dev_mode(&self) -> bool {
        self.dev_mode
    }

    pub closed spec fn spec_max_client_connections(&self) -> u16 {
        self.max_client_connections
    }

    pub closed spec fn spec_scheduler_config(&self) -> SchedulerConfig {
        self.scheduler_config
    }

    pub closed spec fn spec_is_relay(&self) -> bool {
        self.is_relay
    }

    pub closed spec fn spec_save_metadata_on_disk(&self) -> bool {
        self.save_metadata_on_disk
    }

    pub closed spec fn spec_word_filter(&self) -> WordFilter {
        self.word_filter
    }

    pub closed spec fn spec_metadata_source(&self) -> MetadataSource {
        self.metadata_source
    }

    /// The default configuration, with `keypair` as the node's keys.
    pub fn with_keypair(keypair: KeyPair) -> (r: AkarekoConfig)
        ensures
            r.spec_keypair() == keypair,
            r.spec_eepsite_key() == Seq::<char>::empty(),
            r.spec_eepsite_address() == Seq::<char>::empty(),
            !r.spec_dev_mode(),
            !r.spec_is_relay(),
            r.spec_max_client_connections() == 8,
            r.spec_scheduler_config().full_sync_interval == Timestamp(300),
            r.spec_save_metadata_on_disk(),
            r.spec_metadata_source() == MetadataSource::Mangadex,
            r.spec_word_filter() == WordFilter::Disabled,
    {
        AkarekoConfig {
            keypair,
            eepsite_key: String::new(),
            eepsite_address: I2PAddress::new(String::new()),
            dev_mode: false,
            is_relay: false,
            max_client_connections: 8,
            scheduler_config: SchedulerConfig::default(),
            save_metadata_on_disk: true,
            metadata_source: MetadataSource::Mangadex,
            word_filter: WordFilter::Disabled,
        }
    }

    /// A configuration made of all its parts, as a configuration file holds them.
    pub fn from_parts(
        keypair: KeyPair,
        eepsite_key: String,
        eepsite_address: I2PAddress,
        dev_mode: bool,
        max_client_connections: u16,
        scheduler_config: SchedulerConfig,
        is_relay: bool,
        save_metadata_on_disk: bool,
        metadata_source: MetadataSource,
        word_filter: WordFilter,
    ) -> (r: AkarekoConfig)
        ensures
            r.spec_keypair() == keypair,
            r.spec_eepsite_key() == eepsite_key@,
            r.spec_eepsite_address() == eepsite_address@,
            r.spec_dev_mode() == dev_mode,
            r.spec_max_client_connections() == max_client_connections,
            r.spec_scheduler_config() == scheduler_config,
            r.spec_is_relay() == is_relay,
            r.spec_save_metadata_on_disk() == save_metadata_on_disk,
            r.spec_metadata_source() == metadata_source,
            r.spec_word_filter() == word_filter,
    {
        AkarekoConfig {
            keypair,
            eepsite_key,
            eepsite_address,
            dev_mode,
            max_client_connections,
            scheduler_config,
            is_relay,
            save_metadata_on_disk,
            metadata_source,
            word_filter,
        }
    }

    pub fn keypair(&self) -> (r: &KeyPair)
        ensures
            *r == self.spec_keypair(),
    {
        &self.keypair
    }

    pub fn save_metadata_on_disk(&self) -> (r: bool)
        ensures
            r == self.spec_save_metadata_on_disk(),
    {
        self.save_metadata_on_disk
    }

    pub fn word_filter(&self) -> (r: WordFilter)
        ensures
            r == self.spec_word_filter(),
    {
        self.word_filter
    }

    pub fn eepsite_key(&self) -> (r: &String)
        ensures
            r@ == self.spec_eepsite_key(),
    {
        &self.eepsite_key
    }

    /// Sets the address of the node's site and the key it is reached with.
    pub fn set_eepsite_data(&mut self, eepsite_address: I2PAddress, eepsite_key: String)
        ensures
            final(self).spec_eepsite_address() == eepsite_address@,
            final(self).spec_eepsite_key() == eepsite_key@,
            final(self).spec_keypair() == old(self).spec_keypair(),
            final(self).spec_dev_mode() == old(self).spec_dev_mode(),
            final(self).spec_max_client_connections() == old(self).spec_max_client_connections(),
            final(self).spec_scheduler_config() == old(self).spec_scheduler_config(),
            final(self).spec_is_relay() == old(self).spec_is_relay(),
    {
        self.eepsite_address = eepsite_address;
        self.eepsite_key = eepsite_key;
    }

    pub fn eepsite_address(&self) -> (r: &I2PAddress)
        ensures
            r@ == self.spec_eepsite_address(),
    {
        &self.eepsite_address
    }

    pub fn scheduler_config(&self) -> (r: &SchedulerConfig)
        ensures
            *r == self.spec_scheduler_config(),
    {
        &self.scheduler_config
    }

    pub fn public_key(&self) -> (r: &PublicKey)
        ensures
            r@ == self.spec_keypair().spec_public_key(),
    {
        &self.keypair.public_key
    }

    pub fn private_key(&self) -> (r: &PrivateKey)
        ensures
            r@ == self.spec_keypair().spec_private_key(),
    {
        &self.keypair.private_key
    }

    pub fn max_client_connections(&self) -> (r: u16)
        ensures
            r == self.spec_max_client_connections(),
    {
        self.max_client_connections
    }

    pub fn dev_mode(&self) -> (r: bool)
        ensures
            r == self.spec_dev_mode(),
    {
        self.dev_mode
    }

    pub fn set_dev_mode(&mut self, dev_mode: bool)
        ensures
            final(self).spec_dev_mode() == dev_mode,
            final(self).spec_keypair() == old(self).spec_keypair(),
            final(self).spec_eepsite_key() == old(self).spec_eepsite_key(),
            final(self).spec_eepsite_address() == old(self).spec_eepsite_address(),
            final(self).spec_max_client_connections() == old(self).spec_max_client_connections(),
            final(self).spec_scheduler_config() == old(self).spec_scheduler_config(),
            final(self).spec_is_relay() == old(self).spec_is_relay(),
    {
        self.dev_mode = dev_mode;
    }

    pub fn is_relay(&self) -> (r: bool)
        ensures
            r == self.spec_is_relay(),
    {
        self.is_relay
    }
}

impl AkarekoConfig {
    /// The default configuration, with fresh random keys; `None` when the
    /// operating system's random source fails.
    pub fn default() -> (r: Option<AkarekoConfig>)
        ensures
            r matches Some(c) ==> c.spec_keypair().spec_public_key() == ed25519_public_key_of(c.spec_keypair().spec_private_key()),
            r matches Some(c) ==> c.spec_eepsite_key() == Seq::<char>::empty(),
            r matches Some(c) ==> c.spec_eepsite_address() == Seq::<char>::empty(),
            r matches Some(c) ==> !c.spec_dev_mode(),
            r matches Some(c) ==> !c.spec_is_relay(),
            r matches Some(c) ==> c.spec_max_client_connections() == 8,
            r matches Some(c) ==> c.spec_scheduler_config().full_sync_interval == Timestamp(300),
            r matches Some(c) ==> c.spec_save_metadata_on_disk(),
            r matches Some(c) ==> c.spec_metadata_source() == MetadataSource::Mangadex,
            r matches Some(c) ==> c.spec_word_filter() == WordFilter::Disabled,
    {
        match PrivateKey::new() {
            Some(k) => Some(AkarekoConfig::with_keypair(KeyPair::new(k))),
            None => None,
        }
    }
}

/// How images are scaled.
#[derive(Debug, Clone, Copy, PartialEq, Eq, Structural)]
pub enum ImageScale {
    /// Stretched to fill the screen.
    Fill,
    /// No wider than the screen.
    FitHorizontally,
    /// No taller than the screen.
    FitVertically,
    /// As it is.
    Original,
}

/// How the pages of a chapter follow one another.
#[derive(Debug, Clone, Copy, PartialEq, Eq, Structural)]
pub enum ImageVisualizationType {
    LeftToRight,
    RightToLeft,
    Scroll,
}

/// How the user likes to see images.
#[derive(Debug, Clone, Copy, PartialEq, Eq, Structural)]
pub struct ImageViewerPreferences {
    pub double_pages: bool,
    /// The zoom, as a percentage of the image's size; never 0.
    pub zoom: u16,
    pub scale: ImageScale,
    pub visualization_type: ImageVisualizationType,
}

impl Default for ImageViewerPreferences {
    /// Single pages at full size, fitted to the width, left to right.
    fn default() -> (r: ImageViewerPreferences)
        ensures
            !r.double_pages,
            r.zoom == 100,
            r.scale == ImageScale::FitHorizontally,
            r.visualization_type == ImageVisualizationType::LeftToRight,
    {
        ImageViewerPreferences {
            double_pages: false,
            zoom: 100,
            scale: ImageScale::FitHorizontally,
            visualization_type: ImageVisualizationType::LeftToRight,
        }
    }
}

/// The user's settings.
#[derive(Debug, Clone, Copy, PartialEq, Eq, Structural)]
pub struct Settings {
    image_viewer_preferences: ImageViewerPreferences,
}

impl Default for Settings {
    fn default() -> (r: Settings)
        ensures
            r.spec_image_viewer_preferences().zoom == 100,
            !r.spec_image_viewer_preferences().double_pages,
            r.spec_image_viewer_preferences().scale == ImageScale::FitHorizontally,
            r.spec_image_viewer_preferences().visualization_type == ImageVisualizationType::LeftToRight,
    {
        Settings { image_viewer_preferences: ImageViewerPreferences::default() }
    }
}

impl Settings {
    pub closed spec fn spec_image_viewer_preferences(&self) -> ImageViewerPreferences {
        self.image_viewer_preferences
    }

    /// Settings with the given image preferences; a zoom of 0 is taken as 1.
    pub fn with_preferences(prefs: ImageViewerPreferences) -> (r: Settings)
        ensures
            r.spec_image_viewer_preferences().zoom == (if prefs.zoom == 0 { 1 } else { prefs.zoom }),
            r.spec_image_viewer_preferences().double_pages == prefs.double_pages,
            r.spec_image_viewer_preferences().scale == prefs.scale,
            r.spec_image_viewer_preferences().visualization_type == prefs.visualization_type,
    {
        let mut s = Settings { image_viewer_preferences: prefs };
        s.set_zoom(prefs.zoom);
        s
    }

    pub fn image_viewer_preferences(&self) -> (r: &ImageViewerPreferences)
        ensures
            *r == self.spec_image_viewer_preferences(),
    {
        &self.image_viewer_preferences
    }

    pub fn zoom(&self) -> (r: u16)
        ensures
            r == self.spec_image_viewer_preferences().zoom,
    {
        self.image_viewer_preferences.zoom
    }

    /// Sets the zoom; a zoom of 0 is taken as 1.
    pub fn set_zoom(&mut self, zoom: u16)
        ensures
            final(self).spec_image_viewer_preferences().zoom == (if zoom == 0 { 1 } else { zoom }),
            final(self).spec_image_viewer_preferences().double_pages == old(self).spec_image_viewer_preferences().double_pages,
            final(self).spec_image_viewer_preferences().scale == old(self).spec_image_viewer_preferences().scale,
            final(self).spec_image_viewer_preferences().visualization_type == old(
                self,
            ).spec_image_viewer_preferences().visualization_type,
    {
        if zoom == 0 {
            self.image_viewer_preferences.zoom = 1;
        } else {
            self.image_viewer_preferences.zoom = zoom;
        }
    }
}

/// What reading a configuration file gave.
pub enum ConfigFile<C> {
    /// There was no file to read.
    Missing,
    /// The file was there but did not parse.
    Invalid,
    Parsed(C),
}

/// The configuration to use after reading its file, and whether to write
/// it back: a missing file is replaced by the default, an invalid one is
/// left as it is while the default is used.
pub fn loaded_or_default<C>(file: ConfigFile<C>, default: C) -> (r: (C, bool))
    ensures
        match file {
            ConfigFile::Missing => r == (default, true),
            ConfigFile::Invalid => r == (default, false),
            ConfigFile::Parsed(c) => r == (c, false),
        },
{
    match file {
        ConfigFile::Missing => (default, true),
        ConfigFile::Invalid => (default, false),
        ConfigFile::Parsed(c) => (c, false),
    }
}

} // verus!
