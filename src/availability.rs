//! Platform availability of a declaration, as read from its header
//! attributes, and the Rust attributes that express it.
use crate::string::{debug_quoted, debug_quoted_of};
use vstd::prelude::*;

verus! {

/// A version number in the form `x.y.z`.
#[derive(Clone, Copy, Debug, PartialEq, Eq)]
pub struct Version {
    pub x: u32,
    pub y: Option<u32>,
    pub z: Option<u32>,
}

/// One availability attribute of a declaration, for one platform.
#[derive(Clone, Debug, PartialEq, Eq)]
pub struct PlatformAvailability {
    pub platform: String,
    pub unavailable: bool,
    pub introduced: Option<Version>,
    pub deprecated: Option<Version>,
    pub obsoleted: Option<Version>,
    pub message: Option<String>,
}

/// The platforms that availability attributes are tracked for.
#[derive(Clone, Copy, Debug, PartialEq, Eq, Structural)]
pub enum Platform {
    Ios,
    IosAppExtension,
    Macos,
    MacosAppExtension,
    Maccatalyst,
    Watchos,
    Tvos,
}

/// The platform that an attribute's platform name denotes, if it is tracked.
pub open spec fn platform_named(name: Seq<char>) -> Option<Platform> {
    if name == "ios"@ {
        Some(Platform::Ios)
    } else if name == "ios_app_extension"@ {
        Some(Platform::IosAppExtension)
    } else if name == "macos"@ {
        Some(Platform::Macos)
    } else if name == "macos_app_extension"@ {
        Some(Platform::MacosAppExtension)
    } else if name == "maccatalyst"@ {
        Some(Platform::Maccatalyst)
    } else if name == "watchos"@ {
        Some(Platform::Watchos)
    } else if name == "tvos"@ {
        Some(Platform::Tvos)
    } else {
        None
    }
}

fn name_is(name: &String, expected: &str) -> (r: bool)
    ensures
        r == (name@ == expected@),
{
    let other = String::from_str(expected);
    *name == other
}

/// Looks up the platform that `name` denotes.
pub fn platform_from_name(name: &String) -> (r: Option<Platform>)
    ensures
        r == platform_named(name@),
{
    if name_is(name, "ios") {
        Some(Platform::Ios)
    } else if name_is(name, "ios_app_extension") {
        Some(Platform::IosAppExtension)
    } else if name_is(name, "macos") {
        Some(Platform::Macos)
    } else if name_is(name, "macos_app_extension") {
        Some(Platform::MacosAppExtension)
    } else if name_is(name, "maccatalyst") {
        Some(Platform::Maccatalyst)
    } else if name_is(name, "watchos") {
        Some(Platform::Watchos)
    } else if name_is(name, "tvos") {
        Some(Platform::Tvos)
    } else {
        None
    }
}

/// On which platforms a declaration is unavailable, together with the
/// platforms on which its whole library is unavailable.
#[derive(Debug)]
pub struct Unavailable {
    pub ios: bool,
    pub ios_app_extension: bool,
    pub macos: bool,
    pub macos_app_extension: bool,
    pub maccatalyst: bool,
    pub watchos: bool,
    pub tvos: bool,
    pub library_unavailablility: Option<Box<Unavailable>>,
}

impl Unavailable {
    /// Available everywhere, in an available library.
    pub open spec fn spec_none() -> Unavailable {
        Unavailable {
            ios: false,
            ios_app_extension: false,
            macos: false,
            macos_app_extension: false,
            maccatalyst: false,
            watchos: false,
            tvos: false,
            library_unavailablility: None,
        }
    }

    pub open spec fn on(self, p: Platform) -> bool {
        match p {
            Platform::Ios => self.ios,
            Platform::IosAppExtension => self.ios_app_extension,
            Platform::Macos => self.macos,
            Platform::MacosAppExtension => self.macos_app_extension,
            Platform::Maccatalyst => self.maccatalyst,
            Platform::Watchos => self.watchos,
            Platform::Tvos => self.tvos,
        }
    }

    pub open spec fn with(self, p: Platform, v: bool) -> Unavailable {
        match p {
            Platform::Ios => Unavailable { ios: v, ..self },
            Platform::IosAppExtension => Unavailable { ios_app_extension: v, ..self },
            Platform::Macos => Unavailable { macos: v, ..self },
            Platform::MacosAppExtension => Unavailable { macos_app_extension: v, ..self },
            Platform::Maccatalyst => Unavailable { maccatalyst: v, ..self },
            Platform::Watchos => Unavailable { watchos: v, ..self },
            Platform::Tvos => Unavailable { tvos: v, ..self },
        }
    }

    /// Whether the library as a whole is unavailable on `p`.
    pub open spec fn library_on(self, p: Platform) -> bool {
        match self.library_unavailablility {
            Some(lib) => lib.on(p),
            None => false,
        }
    }

    /// The targets that the declaration itself rules out, beyond its library.
    pub open spec fn targets(self) -> Seq<Seq<char>> {
        (if self.ios && !self.library_on(Platform::Ios) {
            seq!["target_os = \"ios\""@]
        } else {
            Seq::empty()
        }) + (if self.macos && !self.library_on(Platform::Macos) {
            seq!["target_os = \"macos\""@]
        } else {
            Seq::empty()
        }) + (if self.tvos && !self.library_on(Platform::Tvos) {
            seq!["target_os = \"tvos\""@]
        } else {
            Seq::empty()
        }) + (if self.watchos && !self.library_on(Platform::Watchos) {
            seq!["target_os = \"watchos\""@]
        } else {
            Seq::empty()
        }) + (if self.maccatalyst && !self.library_on(Platform::Maccatalyst) {
            seq!["target = \"aarch64-apple-ios-macabi\""@, "target = \"x86_64-apple-ios-macabi\""@]
        } else {
            Seq::empty()
        })
    }

    /// The `cfg` attribute line that leaves the declaration out where it is
    /// unavailable; empty when nothing is ruled out.
    pub open spec fn attribute(self) -> Seq<char> {
        let targets = self.targets();
        if targets.len() == 0 {
            Seq::empty()
        } else {
            "#[cfg(not(any("@ + join_comma(targets) + ")))]\n"@
        }
    }

    /// Available everywhere, in an available library.
    pub fn none() -> (r: Unavailable)
        ensures
            r == Unavailable::spec_none(),
    {
        Unavailable {
            ios: false,
            ios_app_extension: false,
            macos: false,
            macos_app_extension: false,
            maccatalyst: false,
            watchos: false,
            tvos: false,
            library_unavailablility: None,
        }
    }

    /// A copy of `self`, library included.
    pub fn copied(&self) -> (r: Unavailable)
        ensures
            r == *self,
        decreases self,
    {
        let library_unavailablility = match &self.library_unavailablility {
            Some(lib) => Some(Box::new(lib.copied())),
            None => None,
        };
        Unavailable {
            ios: self.ios,
            ios_app_extension: self.ios_app_extension,
            macos: self.macos,
            macos_app_extension: self.macos_app_extension,
            maccatalyst: self.maccatalyst,
            watchos: self.watchos,
            tvos: self.tvos,
            library_unavailablility,
        }
    }

    pub fn is_on(&self, p: Platform) -> (r: bool)
        ensures
            r == self.on(p),
    {
        match p {
            Platform::Ios => self.ios,
            Platform::IosAppExtension => self.ios_app_extension,
            Platform::Macos => self.macos,
            Platform::MacosAppExtension => self.macos_app_extension,
            Platform::Maccatalyst => self.maccatalyst,
            Platform::Watchos => self.watchos,
            Platform::Tvos => self.tvos,
        }
    }

    pub fn set(&mut self, p: Platform, v: bool)
        ensures
            *final(self) == old(self).with(p, v),
    {
        match p {
            Platform::Ios => self.ios = v,
            Platform::IosAppExtension => self.ios_app_extension = v,
            Platform::Macos => self.macos = v,
            Platform::MacosAppExtension => self.macos_app_extension = v,
            Platform::Maccatalyst => self.maccatalyst = v,
            Platform::Watchos => self.watchos = v,
            Platform::Tvos => self.tvos = v,
        }
    }

    fn library_is_on(&self, p: Platform) -> (r: bool)
        ensures
            r == self.library_on(p),
    {
        match &self.library_unavailablility {
            Some(lib) => lib.is_on(p),
            None => false,
        }
    }

    /// The `cfg` attribute line for the platforms on which the declaration
    /// is unavailable while its library is not.
    pub fn to_string(&self) -> (r: String)
        ensures
            r@ == self.attribute(),
    {
        let mut targets: Vec<&str> = Vec::new();
        if self.ios && !self.library_is_on(Platform::Ios) {
            targets.push("target_os = \"ios\"");
        }
        if self.macos && !self.library_is_on(Platform::Macos) {
            targets.push("target_os = \"macos\"");
        }
        if self.tvos && !self.library_is_on(Platform::Tvos) {
            targets.push("target_os = \"tvos\"");
        }
        if self.watchos && !self.library_is_on(Platform::Watchos) {
            targets.push("target_os = \"watchos\"");
        }
        if self.maccatalyst && !self.library_is_on(Platform::Maccatalyst) {
            targets.push("target = \"aarch64-apple-ios-macabi\"");
            targets.push("target = \"x86_64-apple-ios-macabi\"");
        }
        proof {
            assert(views(targets@) =~= self.targets());
        }
        if targets.len() == 0 {
            String::new()
        } else {
            let mut out = String::from_str("#[cfg(not(any(");
            let joined = join_with_commas(&targets);
            out.append(joined.as_str());
            out.append(")))]\n");
            out
        }
    }
}

pub open spec fn views(s: Seq<&str>) -> Seq<Seq<char>> {
    s.map_values(|e: &str| e@)
}

/// The items of `s`, separated by commas.
pub open spec fn join_comma(s: Seq<Seq<char>>) -> Seq<char>
    decreases s.len(),
{
    if s.len() == 0 {
        Seq::empty()
    } else if s.len() == 1 {
        s[0]
    } else {
        join_comma(s.drop_last()) + ","@ + s.last()
    }
}

fn join_with_commas(items: &Vec<&str>) -> (r: String)
    ensures
        r@ == join_comma(views(items@)),
{
    let mut out = String::new();
    let mut i: usize = 0;
    while i < items.len()
        invariant
            i <= items.len(),
            out@ == join_comma(views(items@.take(i as int))),
        decreases items.len() - i,
    {
        if i > 0 {
            out.append(",");
        }
        out.append(items[i]);
        proof {
            let next = views(items@.take(i + 1));
            assert(next.drop_last() =~= views(items@.take(i as int)));
            assert(next.last() == items@[i as int]@);
        }
        i = i + 1;
    }
    proof {
        assert(items@.take(i as int) =~= items@);
    }
    out
}

/// The version, per platform, at which something happened to a declaration.
#[derive(Debug, Clone, PartialEq, Eq, Default)]
pub struct Versions {
    pub ios: Option<Version>,
    pub ios_app_extension: Option<Version>,
    pub macos: Option<Version>,
    pub macos_app_extension: Option<Version>,
    pub maccatalyst: Option<Version>,
    pub watchos: Option<Version>,
    pub tvos: Option<Version>,
}

impl Versions {
    pub open spec fn spec_none() -> Versions {
        Versions {
            ios: None,
            ios_app_extension: None,
            macos: None,
            macos_app_extension: None,
            maccatalyst: None,
            watchos: None,
            tvos: None,
        }
    }

    pub open spec fn with(self, p: Platform, v: Option<Version>) -> Versions {
        match p {
            Platform::Ios => Versions { ios: v, ..self },
            Platform::IosAppExtension => Versions { ios_app_extension: v, ..self },
            Platform::Macos => Versions { macos: v, ..self },
            Platform::MacosAppExtension => Versions { macos_app_extension: v, ..self },
            Platform::Maccatalyst => Versions { maccatalyst: v, ..self },
            Platform::Watchos => Versions { watchos: v, ..self },
            Platform::Tvos => Versions { tvos: v, ..self },
        }
    }

    /// Whether no platform has a version.
    pub open spec fn is_none(self) -> bool {
        &&& self.ios is None
        &&& self.ios_app_extension is None
        &&& self.macos is None
        &&& self.macos_app_extension is None
        &&& self.maccatalyst is None
        &&& self.watchos is None
        &&& self.tvos is None
    }

    pub fn none() -> (r: Versions)
        ensures
            r == Versions::spec_none(),
    {
        Versions {
            ios: None,
            ios_app_extension: None,
            macos: None,
            macos_app_extension: None,
            maccatalyst: None,
            watchos: None,
            tvos: None,
        }
    }

    pub fn set(&mut self, p: Platform, v: Option<Version>)
        ensures
            *final(self) == old(self).with(p, v),
    {
        match p {
            Platform::Ios => self.ios = v,
            Platform::IosAppExtension => self.ios_app_extension = v,
            Platform::Macos => self.macos = v,
            Platform::MacosAppExtension => self.macos_app_extension = v,
            Platform::Maccatalyst => self.maccatalyst = v,
            Platform::Watchos => self.watchos = v,
            Platform::Tvos => self.tvos = v,
        }
    }

    pub fn is_empty(&self) -> (r: bool)
        ensures
            r == self.is_none(),
    {
        self.ios.is_none() && self.ios_app_extension.is_none() && self.macos.is_none()
            && self.macos_app_extension.is_none() && self.maccatalyst.is_none()
            && self.watchos.is_none() && self.tvos.is_none()
    }
}

/// Everything the availability attributes of a declaration say.
#[derive(Debug)]
pub struct Availability {
    pub unavailable: Unavailable,
    pub introduced: Versions,
    pub deprecated: Versions,
    pub message: Option<String>,
    pub swift: Option<PlatformAvailability>,
}

/// The availability of a declaration with no attributes, in a library that
/// is unavailable where `library` says.
pub open spec fn initial_availability(library: Unavailable) -> Availability {
    Availability {
        unavailable: Unavailable {
            library_unavailablility: Some(Box::new(library)),
            ..Unavailable::spec_none()
        },
        introduced: Versions::spec_none(),
        deprecated: Versions::spec_none(),
        message: None,
        swift: None,
    }
}

/// What one attribute adds: a tracked platform takes the attribute's flag and
/// versions, and its message if it has one; `swift` is kept aside; any other
/// platform is ignored.
pub open spec fn apply_attribute(a: Availability, rec: PlatformAvailability) -> Availability {
    match platform_named(rec.platform@) {
        Some(p) => Availability {
            unavailable: a.unavailable.with(p, rec.unavailable),
            introduced: a.introduced.with(p, rec.introduced),
            deprecated: a.deprecated.with(p, rec.deprecated),
            message: if rec.message is Some {
                rec.message
            } else {
                a.message
            },
            swift: a.swift,
        },
        None => if rec.platform@ == "swift"@ {
            Availability { swift: Some(rec), ..a }
        } else {
            a
        },
    }
}

/// The attributes applied in order, starting from `a`.
pub open spec fn apply_attributes(a: Availability, recs: Seq<PlatformAvailability>) -> Availability
    decreases recs.len(),
{
    if recs.len() == 0 {
        a
    } else {
        apply_attributes(apply_attribute(a, recs[0]), recs.drop_first())
    }
}

/// The `deprecated` attribute line for a deprecation message already quoted
/// as a string literal, or without a message.
pub open spec fn deprecated_line(quoted_message: Option<Seq<char>>) -> Seq<char> {
    match quoted_message {
        Some(m) => "#[deprecated = "@ + m + "]\n"@,
        None => "#[deprecated]\n"@,
    }
}

/// The attribute lines for `a`, its message given as a quoted literal.
pub open spec fn attributes_with(a: Availability, quoted_message: Option<Seq<char>>) -> Seq<char> {
    (if a.deprecated.is_none() {
        Seq::empty()
    } else {
        deprecated_line(quoted_message)
    }) + a.unavailable.attribute()
}

/// Builds the `deprecated` attribute line from a message that is already
/// quoted as a string literal.
pub fn deprecated_attribute(quoted_message: Option<&String>) -> (r: String)
    ensures
        r@ == deprecated_line(
            match quoted_message {
                Some(m) => Some(m@),
                None => None,
            },
        ),
{
    match quoted_message {
        Some(m) => {
            let mut out = String::from_str("#[deprecated = ");
            out.append(m.as_str());
            out.append("]\n");
            out
        },
        None => String::from_str("#[deprecated]\n"),
    }
}

impl Availability {
    /// The availability that the attributes `availabilities` give a
    /// declaration of a library that is unavailable where
    /// `library_unavailablility` says.
    pub fn from_attributes(
        availabilities: Vec<PlatformAvailability>,
        library_unavailablility: &Unavailable,
    ) -> (r: Availability)
        ensures
            r == apply_attributes(
                initial_availability(*library_unavailablility),
                availabilities@,
            ),
    {
        let mut unavailable = Unavailable::none();
        unavailable.library_unavailablility = Some(Box::new(library_unavailablility.copied()));
        let mut a = Availability {
            unavailable,
            introduced: Versions::none(),
            deprecated: Versions::none(),
            message: None,
            swift: None,
        };
        let mut rest = availabilities;
        while rest.len() > 0
            invariant
                apply_attributes(a, rest@) == apply_attributes(
                    initial_availability(*library_unavailablility),
                    availabilities@,
                ),
            decreases rest.len(),
        {
            let ghost before = rest@;
            let rec = rest.remove(0);
            proof {
                assert(rest@ =~= before.drop_first());
            }
            a.apply(rec);
        }
        a
    }

    /// Takes one availability attribute into account.
    pub fn apply(&mut self, rec: PlatformAvailability)
        ensures
            *final(self) == apply_attribute(*old(self), rec),
    {
        match platform_from_name(&rec.platform) {
            Some(p) => {
                self.unavailable.set(p, rec.unavailable);
                self.introduced.set(p, rec.introduced);
                self.deprecated.set(p, rec.deprecated);
                if rec.message.is_some() {
                    self.message = rec.message;
                }
            },
            None => {
                if name_is(&rec.platform, "swift") {
                    self.swift = Some(rec);
                }
            },
        }
    }

    /// The availability that the attribute list `availabilities` gives, as
    /// `from_attributes` computes it; `None` exactly where there is no list.
    pub fn from_platform_availability(
        availabilities: Option<Vec<PlatformAvailability>>,
        library_unavailablility: &Unavailable,
    ) -> (r: Option<Availability>)
        ensures
            r is None <==> availabilities is None,
            availabilities matches Some(recs) ==> r == Some(
                apply_attributes(initial_availability(*library_unavailablility), recs@),
            ),
    {
        match availabilities {
            Some(availabilities) => Some(
                Availability::from_attributes(availabilities, library_unavailablility),
            ),
            None => None,
        }
    }

    /// The attribute lines for this availability: `deprecated` (with its
    /// message) where some platform deprecates, then the `cfg` line of
    /// `unavailable`.
    pub fn to_string(&self) -> (r: String)
        ensures
            r@ == attributes_with(
                *self,
                match self.message {
                    Some(m) => Some(debug_quoted_of(m@)),
                    None => None,
                },
            ),
    {
        let mut out = if self.deprecated.is_empty() {
            String::new()
        } else {
            match &self.message {
                Some(m) => {
                    let quoted = debug_quoted(m);
                    deprecated_attribute(Some(&quoted))
                },
                None => deprecated_attribute(None),
            }
        };
        let cfg = self.unavailable.to_string();
        out.append(cfg.as_str());
        out
    }
}

} // verus!
