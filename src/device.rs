//! Device records: the self-description a peer announces, in its v2 form,
//! its compact v1 form, and the shape it takes on the wire.
use vstd::prelude::*;
use crate::outside::fresh_id;
use crate::text::str_eq;

verus! {

/// Port of the multicast group, and of peers ingested through protocol v1.
pub const MULTICAST_PORT: u16 = 53317;

/// The kind of device a peer says it is.
#[derive(Clone, Copy, Debug, PartialEq, Eq, Structural)]
pub enum DeviceType {
    Mobile,
    Desktop,
    Web,
    Headless,
    Server,
    Unknown,
}

impl DeviceType {
    /// The lower-case token that stands for this type on the wire.
    pub open spec fn spec_token(self) -> Seq<char> {
        match self {
            DeviceType::Mobile => "mobile"@,
            DeviceType::Desktop => "desktop"@,
            DeviceType::Web => "web"@,
            DeviceType::Headless => "headless"@,
            DeviceType::Server => "server"@,
            DeviceType::Unknown => "unknown"@,
        }
    }

    /// The type a wire token stands for; tokens that name no type map to `Unknown`.
    pub open spec fn spec_from_token(t: Seq<char>) -> DeviceType {
        if t == "mobile"@ {
            DeviceType::Mobile
        } else if t == "desktop"@ {
            DeviceType::Desktop
        } else if t == "web"@ {
            DeviceType::Web
        } else if t == "headless"@ {
            DeviceType::Headless
        } else if t == "server"@ {
            DeviceType::Server
        } else {
            DeviceType::Unknown
        }
    }

    pub fn token(&self) -> (r: &'static str)
        ensures
            r@ == self.spec_token(),
    {
        match self {
            DeviceType::Mobile => "mobile",
            DeviceType::Desktop => "desktop",
            DeviceType::Web => "web",
            DeviceType::Headless => "headless",
            DeviceType::Server => "server",
            DeviceType::Unknown => "unknown",
        }
    }

    pub fn from_token(t: &str) -> (r: DeviceType)
        ensures
            r == DeviceType::spec_from_token(t@),
    {
        if str_eq(t, "mobile") {
            DeviceType::Mobile
        } else if str_eq(t, "desktop") {
            DeviceType::Desktop
        } else if str_eq(t, "web") {
            DeviceType::Web
        } else if str_eq(t, "headless") {
            DeviceType::Headless
        } else if str_eq(t, "server") {
            DeviceType::Server
        } else {
            DeviceType::Unknown
        }
    }

    /// Reading back the token of a type gives that type.
    pub proof fn lemma_token_round_trip(self)
        ensures
            DeviceType::spec_from_token(self.spec_token()) == self,
    {
        reveal_strlit("mobile");
        reveal_strlit("desktop");
        reveal_strlit("web");
        reveal_strlit("headless");
        reveal_strlit("server");
        reveal_strlit("unknown");
        assert("mobile"@[0] == 'm');
        assert("desktop"@[0] == 'd');
        assert("headless"@[0] == 'h');
        assert("server"@[0] == 's');
        assert("unknown"@[0] == 'u');
        assert("web"@[0] == 'w');
    }
}

pub open spec fn opt_view(o: Option<String>) -> Option<Seq<char>> {
    match o {
        Some(s) => Some(s@),
        None => None,
    }
}

pub fn clone_opt(o: &Option<String>) -> (r: Option<String>)
    ensures
        r == *o,
{
    match o {
        Some(s) => Some(s.clone()),
        None => None,
    }
}

/// The device record of protocol v2, as this peer keeps it: the
/// self-description it announces and what it knows of each peer.
#[derive(Clone, Debug)]
pub struct DeviceInfoV2 {
    pub alias: String,
    pub version: String,
    pub device_model: Option<String>,
    pub device_type: DeviceType,
    pub fingerprint: String,
    pub port: u16,
    pub protocol: String,
    pub download: bool,
    pub announce: bool,
}

/// The contents of a `DeviceInfoV2`.
pub struct DeviceView {
    pub alias: Seq<char>,
    pub version: Seq<char>,
    pub device_model: Option<Seq<char>>,
    pub device_type: DeviceType,
    pub fingerprint: Seq<char>,
    pub port: u16,
    pub protocol: Seq<char>,
    pub download: bool,
    pub announce: bool,
}

impl View for DeviceInfoV2 {
    type V = DeviceView;

    open spec fn view(&self) -> DeviceView {
        DeviceView {
            alias: self.alias@,
            version: self.version@,
            device_model: opt_view(self.device_model),
            device_type: self.device_type,
            fingerprint: self.fingerprint@,
            port: self.port,
            protocol: self.protocol@,
            download: self.download,
            announce: self.announce,
        }
    }
}

/// The compact device record of protocol v1.
#[derive(Clone, Debug)]
pub struct DeviceInfoV1 {
    pub alias: String,
    pub device_model: Option<String>,
    pub device_type: String,
    pub fingerprint: String,
    pub announcement: bool,
}

pub struct DeviceV1View {
    pub alias: Seq<char>,
    pub device_model: Option<Seq<char>>,
    pub device_type: Seq<char>,
    pub fingerprint: Seq<char>,
    pub announcement: bool,
}

impl View for DeviceInfoV1 {
    type V = DeviceV1View;

    open spec fn view(&self) -> DeviceV1View {
        DeviceV1View {
            alias: self.alias@,
            device_model: opt_view(self.device_model),
            device_type: self.device_type@,
            fingerprint: self.fingerprint@,
            announcement: self.announcement,
        }
    }
}

/// What the v1 `info` endpoint answers.
#[derive(Clone, Debug)]
pub struct DeviceInfoV1Response {
    pub alias: String,
    pub device_model: Option<String>,
    pub device_type: String,
}

/// The query of the `info` endpoints: the asking peer's fingerprint.
#[derive(Clone, Debug)]
pub struct InfoQuery {
    pub fingerprint: String,
}

/// A v2 device record as it stands on the wire, where the device type is a
/// free token and the `announce` field may be absent.
#[derive(Clone, Debug)]
pub struct DeviceInfo {
    pub alias: String,
    pub version: String,
    pub device_model: Option<String>,
    pub device_type: Option<String>,
    pub fingerprint: String,
    pub port: u16,
    pub protocol: String,
    pub download: bool,
    pub announce: Option<bool>,
}

pub struct WireView {
    pub alias: Seq<char>,
    pub version: Seq<char>,
    pub device_model: Option<Seq<char>>,
    pub device_type: Option<Seq<char>>,
    pub fingerprint: Seq<char>,
    pub port: u16,
    pub protocol: Seq<char>,
    pub download: bool,
    pub announce: Option<bool>,
}

impl View for DeviceInfo {
    type V = WireView;

    open spec fn view(&self) -> WireView {
        WireView {
            alias: self.alias@,
            version: self.version@,
            device_model: opt_view(self.device_model),
            device_type: opt_view(self.device_type),
            fingerprint: self.fingerprint@,
            port: self.port,
            protocol: self.protocol@,
            download: self.download,
            announce: self.announce,
        }
    }
}

/// Whether a boolean field is left out of an outgoing record: `false` is.
pub open spec fn spec_is_false(b: bool) -> bool {
    !b
}

pub fn is_false(value: &bool) -> (r: bool)
    ensures
        r == spec_is_false(*value),
{
    !*value
}

/// The wire form of a record: the device type as its token, and `announce`
/// left out unless it is set.
pub open spec fn wire_of(d: DeviceView) -> WireView {
    WireView {
        alias: d.alias,
        version: d.version,
        device_model: d.device_model,
        device_type: Some(d.device_type.spec_token()),
        fingerprint: d.fingerprint,
        port: d.port,
        protocol: d.protocol,
        download: d.download,
        announce: if spec_is_false(d.announce) { None } else { Some(true) },
    }
}

/// The record a wire form stands for: an absent type is `Unknown`, an absent
/// `announce` is `false`.
pub open spec fn from_wire(w: WireView) -> DeviceView {
    DeviceView {
        alias: w.alias,
        version: w.version,
        device_model: w.device_model,
        device_type: match w.device_type {
            Some(t) => DeviceType::spec_from_token(t),
            None => DeviceType::Unknown,
        },
        fingerprint: w.fingerprint,
        port: w.port,
        protocol: w.protocol,
        download: w.download,
        announce: w.announce == Some(true),
    }
}

/// The compact v1 form of a record.
pub open spec fn v1_of(d: DeviceView) -> DeviceV1View {
    DeviceV1View {
        alias: d.alias,
        device_model: d.device_model,
        device_type: d.device_type.spec_token(),
        fingerprint: d.fingerprint,
        announcement: d.announce,
    }
}

/// The v2 record kept for a peer heard through protocol v1.
pub open spec fn from_v1(v: DeviceV1View) -> DeviceView {
    DeviceView {
        alias: v.alias,
        version: "1.0"@,
        device_model: v.device_model,
        device_type: DeviceType::spec_from_token(v.device_type),
        fingerprint: v.fingerprint,
        port: MULTICAST_PORT,
        protocol: "http"@,
        download: true,
        announce: v.announcement,
    }
}

/// A record with its `announce` bit set as given.
pub open spec fn with_announce(d: DeviceView, announce: bool) -> DeviceView {
    DeviceView { announce, ..d }
}

/// The record answered to a peer that asks about itself.
pub open spec fn empty_record() -> DeviceView {
    DeviceView {
        alias: Seq::empty(),
        version: Seq::empty(),
        device_model: None,
        device_type: DeviceType::Unknown,
        fingerprint: Seq::empty(),
        port: 0,
        protocol: Seq::empty(),
        download: false,
        announce: false,
    }
}

/// A record written to the wire and read back is the same record.
pub proof fn lemma_wire_round_trip(d: DeviceView)
    ensures
        from_wire(wire_of(d)) == d,
{
    d.device_type.lemma_token_round_trip();
}

/// On the wire an absent `announce` reads as `false`.
pub proof fn lemma_absent_announce_is_false(w: WireView)
    ensures
        from_wire(WireView { announce: None, ..w }) == from_wire(WireView { announce: Some(false), ..w }),
        !from_wire(WireView { announce: None, ..w }).announce,
{
}

impl DeviceInfoV2 {
    pub fn duplicate(&self) -> (r: DeviceInfoV2)
        ensures
            r == *self,
    {
        DeviceInfoV2 {
            alias: self.alias.clone(),
            version: self.version.clone(),
            device_model: clone_opt(&self.device_model),
            device_type: self.device_type,
            fingerprint: self.fingerprint.clone(),
            port: self.port,
            protocol: self.protocol.clone(),
            download: self.download,
            announce: self.announce,
        }
    }

    /// The compact v1 form of this record.
    pub fn to_v1(&self) -> (r: DeviceInfoV1)
        ensures
            r@ == v1_of(self@),
    {
        DeviceInfoV1 {
            alias: self.alias.clone(),
            device_model: clone_opt(&self.device_model),
            device_type: String::from_str(self.device_type.token()),
            fingerprint: self.fingerprint.clone(),
            announcement: self.announce,
        }
    }

    /// The v2 record kept for a peer heard through protocol v1.
    pub fn from_v1(v: DeviceInfoV1) -> (r: DeviceInfoV2)
        ensures
            r@ == from_v1(v@),
    {
        let device_type = DeviceType::from_token(v.device_type.as_str());
        DeviceInfoV2 {
            alias: v.alias,
            version: String::from_str("1.0"),
            device_model: v.device_model,
            device_type,
            fingerprint: v.fingerprint,
            port: MULTICAST_PORT,
            protocol: String::from_str("http"),
            download: true,
            announce: v.announcement,
        }
    }

    /// The wire form of this record.
    pub fn to_wire(self) -> (r: DeviceInfo)
        ensures
            r@ == wire_of(self@),
    {
        let announce = if is_false(&self.announce) {
            None
        } else {
            Some(true)
        };
        DeviceInfo {
            alias: self.alias,
            version: self.version,
            device_model: self.device_model,
            device_type: Some(String::from_str(self.device_type.token())),
            fingerprint: self.fingerprint,
            port: self.port,
            protocol: self.protocol,
            download: self.download,
            announce,
        }
    }

    /// The record a wire form stands for.
    pub fn from_wire(w: DeviceInfo) -> (r: DeviceInfoV2)
        ensures
            r@ == from_wire(w@),
    {
        let device_type = match &w.device_type {
            Some(t) => DeviceType::from_token(t.as_str()),
            None => DeviceType::Unknown,
        };
        let announce = match w.announce {
            Some(a) => a,
            None => false,
        };
        DeviceInfoV2 {
            alias: w.alias,
            version: w.version,
            device_model: w.device_model,
            device_type,
            fingerprint: w.fingerprint,
            port: w.port,
            protocol: w.protocol,
            download: w.download,
            announce,
        }
    }

    /// The record answered to a peer that asks about itself.
    pub fn empty() -> (r: DeviceInfoV2)
        ensures
            r@ == empty_record(),
    {
        DeviceInfoV2 {
            alias: String::new(),
            version: String::new(),
            device_model: None,
            device_type: DeviceType::Unknown,
            fingerprint: String::new(),
            port: 0,
            protocol: String::new(),
            download: false,
            announce: false,
        }
    }

    /// This peer's self-description built from its configuration, under the
    /// given fingerprint; it announces itself with protocol version 2.1.
    pub fn from_config_with(config: &Config, fingerprint: String) -> (r: DeviceInfoV2)
        ensures
            r@ == config_record(config@, fingerprint@),
    {
        DeviceInfoV2 {
            alias: config.alias.clone(),
            version: String::from_str("2.1"),
            device_model: clone_opt(&config.device_model),
            device_type: config.device_type,
            fingerprint,
            port: config.port,
            protocol: config.protocol.clone(),
            download: config.download,
            announce: config.announce,
        }
    }

    /// This peer's self-description under a freshly drawn fingerprint.
    pub fn from_config(config: &Config) -> (r: DeviceInfoV2)
        ensures
            r@ == config_record(config@, r.fingerprint@),
            r.fingerprint@.len() == 36,
    {
        DeviceInfoV2::from_config_with(config, fresh_id())
    }
}

/// The configuration the core is started with.
#[derive(Clone, Debug)]
pub struct Config {
    pub download_dir: String,
    pub alias: String,
    pub device_model: Option<String>,
    pub device_type: DeviceType,
    pub port: u16,
    pub protocol: String,
    pub download: bool,
    pub announce: bool,
}

pub struct ConfigView {
    pub download_dir: Seq<char>,
    pub alias: Seq<char>,
    pub device_model: Option<Seq<char>>,
    pub device_type: DeviceType,
    pub port: u16,
    pub protocol: Seq<char>,
    pub download: bool,
    pub announce: bool,
}

impl View for Config {
    type V = ConfigView;

    open spec fn view(&self) -> ConfigView {
        ConfigView {
            download_dir: self.download_dir@,
            alias: self.alias@,
            device_model: opt_view(self.device_model),
            device_type: self.device_type,
            port: self.port,
            protocol: self.protocol@,
            download: self.download,
            announce: self.announce,
        }
    }
}

/// The self-description that a configuration gives under a fingerprint.
pub open spec fn config_record(c: ConfigView, fingerprint: Seq<char>) -> DeviceView {
    DeviceView {
        alias: c.alias,
        version: "2.1"@,
        device_model: c.device_model,
        device_type: c.device_type,
        fingerprint,
        port: c.port,
        protocol: c.protocol,
        download: c.download,
        announce: c.announce,
    }
}

impl Config {
    /// The default configuration, saving into the given directory.
    pub fn default_in(download_dir: String) -> (r: Config)
        ensures
            r.download_dir@ == download_dir@,
            r.alias@ == "demonsend"@,
            r.device_model.is_none(),
            r.device_type == DeviceType::Headless,
            r.port == MULTICAST_PORT,
            r.protocol@ == "http"@,
            r.download,
            r.announce,
    {
        Config {
            download_dir,
            alias: String::from_str("demonsend"),
            device_model: None,
            device_type: DeviceType::Headless,
            port: MULTICAST_PORT,
            protocol: String::from_str("http"),
            download: true,
            announce: true,
        }
    }
}

impl DeviceInfo {
    /// A self-description with the given fields under a freshly drawn
    /// fingerprint.
    pub fn new(
        alias: String,
        version: String,
        device_model: Option<String>,
        device_type: Option<String>,
        port: u16,
        protocol: String,
        download: bool,
        announce: Option<bool>,
    ) -> (r: DeviceInfo)
        ensures
            r.alias == alias,
            r.version == version,
            r.device_model == device_model,
            r.device_type == device_type,
            r.fingerprint@.len() == 36,
            r.port == port,
            r.protocol == protocol,
            r.download == download,
            r.announce == announce,
    {
        DeviceInfo {
            alias,
            version,
            device_model,
            device_type,
            fingerprint: fresh_id(),
            port,
            protocol,
            download,
            announce,
        }
    }

    /// A stand-alone self-description under a freshly drawn fingerprint.
    pub fn default() -> (r: DeviceInfo)
        ensures
            r.alias@ == "localsend-rs"@,
            r.version@ == "2.1"@,
            r.device_model.is_none(),
            opt_view(r.device_type) == Some("headless"@),
            r.fingerprint@.len() == 36,
            r.port == MULTICAST_PORT,
            r.protocol@ == "http"@,
            r.download,
            r.announce == Some(true),
    {
        DeviceInfo::new(
            String::from_str("localsend-rs"),
            String::from_str("2.1"),
            None,
            Some(String::from_str("headless")),
            MULTICAST_PORT,
            String::from_str("http"),
            true,
            Some(true),
        )
    }
}

} // verus!
