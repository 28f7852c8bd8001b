use vstd::prelude::*;

verus! {

/// An optional tag marking a version as not yet stable. Exactly one of
/// "no tag", alpha or beta holds at any time.
#[allow(non_camel_case_types)]
#[derive(Clone, Copy, Debug, PartialEq, Eq, Structural)]
pub enum PreReleaseFlag {
    alpha,
    beta,
}

/// The four precedence levels of a version, from most to least significant.
/// Incrementing a level resets every strictly less significant level.
#[derive(Clone, Copy, Debug, PartialEq, Eq, Structural)]
pub enum Level {
    Major,
    Minor,
    Patch,
    BuildIter,
}

/// Ordinal of a precedence level: smaller means more significant.
pub open spec fn level_ord(level: Level) -> int {
    match level {
        Level::Major => 1,
        Level::Minor => 2,
        Level::Patch => 3,
        Level::BuildIter => 4,
    }
}

impl Level {
    /// Ordinal of a precedence level, for comparing significance.
    pub fn ordinal(&self) -> (r: u8)
        ensures
            r as int == level_ord(*self),
    {
        match self {
            Level::Major => 1,
            Level::Minor => 2,
            Level::Patch => 3,
            Level::BuildIter => 4,
        }
    }
}

/// A semantic version: three ordered numeric components, an independent
/// build counter, and an optional pre-release tag.
#[derive(Clone, Copy, Debug, PartialEq, Eq)]
pub struct SemanticVersion {
    pub major: u16,
    pub minor: u16,
    pub patch: u16,
    pub build_iteration: u16,
    pub pre_release_flag: Option<PreReleaseFlag>,
}

/// The fresh starting point: a new project begins at "0.1.0".
pub open spec fn spec_default_version() -> SemanticVersion {
    SemanticVersion {
        major: 0,
        minor: 1,
        patch: 0,
        build_iteration: 0,
        pre_release_flag: None,
    }
}

/// Resetting for an increment of `level`: every field at a strictly less
/// significant level returns to zero, and a reset of the build level also
/// clears the pre-release tag. The acting level itself is never reset.
pub open spec fn spec_reset_fields(v: SemanticVersion, level: Level) -> SemanticVersion {
    SemanticVersion {
        major: if level_ord(level) < level_ord(Level::Major) {
            0
        } else {
            v.major
        },
        minor: if level_ord(level) < level_ord(Level::Minor) {
            0
        } else {
            v.minor
        },
        patch: if level_ord(level) < level_ord(Level::Patch) {
            0
        } else {
            v.patch
        },
        build_iteration: if level_ord(level) < level_ord(Level::BuildIter) {
            0
        } else {
            v.build_iteration
        },
        pre_release_flag: if level_ord(level) < level_ord(Level::BuildIter) {
            None
        } else {
            v.pre_release_flag
        },
    }
}

/// A major increment: bump major, reset minor, patch and build, clear the tag.
pub open spec fn spec_inc_major(v: SemanticVersion) -> SemanticVersion {
    spec_reset_fields(SemanticVersion { major: (v.major + 1) as u16, ..v }, Level::Major)
}

/// A minor increment: bump minor, reset patch and build, clear the tag.
pub open spec fn spec_inc_minor(v: SemanticVersion) -> SemanticVersion {
    spec_reset_fields(SemanticVersion { minor: (v.minor + 1) as u16, ..v }, Level::Minor)
}

/// A patch increment: bump patch, reset build, clear the tag.
pub open spec fn spec_inc_patch(v: SemanticVersion) -> SemanticVersion {
    spec_reset_fields(SemanticVersion { patch: (v.patch + 1) as u16, ..v }, Level::Patch)
}

/// A build increment: bump the build counter alone. Build is the least
/// significant level, so nothing is reset and the tag is kept.
pub open spec fn spec_inc_build(v: SemanticVersion) -> SemanticVersion {
    spec_reset_fields(
        SemanticVersion { build_iteration: (v.build_iteration + 1) as u16, ..v },
        Level::BuildIter,
    )
}

/// Setting the alpha tag, overwriting any prior tag.
pub open spec fn spec_set_alpha(v: SemanticVersion) -> SemanticVersion {
    SemanticVersion { pre_release_flag: Some(PreReleaseFlag::alpha), ..v }
}

/// Setting the beta tag, overwriting any prior tag.
pub open spec fn spec_set_beta(v: SemanticVersion) -> SemanticVersion {
    SemanticVersion { pre_release_flag: Some(PreReleaseFlag::beta), ..v }
}

/// Clearing the pre-release tag.
pub open spec fn spec_remove_flag(v: SemanticVersion) -> SemanticVersion {
    SemanticVersion { pre_release_flag: None, ..v }
}

impl Default for SemanticVersion {
    /// A fresh version, starting at "0.1.0".
    fn default() -> (r: Self)
        ensures
            r == spec_default_version(),
    {
        SemanticVersion {
            major: 0,
            minor: 1,
            patch: 0,
            build_iteration: 0,
            pre_release_flag: None,
        }
    }
}

impl SemanticVersion {
    /// Reset every field strictly less significant than `level`; a reset that
    /// reaches the build level clears the pre-release tag too.
    fn reset_fields(&mut self, level: Level)
        ensures
            *final(self) == spec_reset_fields(*old(self), level),
    {
        let ord = level.ordinal();
        if ord < Level::Major.ordinal() {
            self.major = 0;
        }
        if ord < Level::Minor.ordinal() {
            self.minor = 0;
        }
        if ord < Level::Patch.ordinal() {
            self.patch = 0;
        }
        if ord < Level::BuildIter.ordinal() {
            self.build_iteration = 0;
            self.pre_release_flag = None;
        }
    }

    /// Increment the major version and reset minor, patch, build and the tag.
    pub fn inc_major(&mut self)
        requires
            old(self).major < u16::MAX,
        ensures
            *final(self) == spec_inc_major(*old(self)),
    {
        self.major = self.major + 1;
        self.reset_fields(Level::Major)
    }

    /// Increment the minor version and reset patch, build and the tag;
    /// major is untouched.
    pub fn inc_minor(&mut self)
        requires
            old(self).minor < u16::MAX,
        ensures
            *final(self) == spec_inc_minor(*old(self)),
    {
        self.minor = self.minor + 1;
        self.reset_fields(Level::Minor)
    }

    /// Increment the patch version and reset build and the tag; major and
    /// minor are untouched.
    pub fn inc_patch(&mut self)
        requires
            old(self).patch < u16::MAX,
        ensures
            *final(self) == spec_inc_patch(*old(self)),
    {
        self.patch = self.patch + 1;
        self.reset_fields(Level::Patch)
    }

    /// Increment the build counter; nothing else changes, and in particular
    /// an active pre-release tag is kept.
    pub fn inc_build(&mut self)
        requires
            old(self).build_iteration < u16::MAX,
        ensures
            *final(self) == spec_inc_build(*old(self)),
    {
        self.build_iteration = self.build_iteration + 1;
        self.reset_fields(Level::BuildIter)
    }

    /// Set the alpha tag, overwriting any prior tag.
    pub fn set_alpha(&mut self)
        ensures
            *final(self) == spec_set_alpha(*old(self)),
    {
        self.pre_release_flag = Some(PreReleaseFlag::alpha)
    }

    /// Set the beta tag, overwriting any prior tag.
    pub fn set_beta(&mut self)
        ensures
            *final(self) == spec_set_beta(*old(self)),
    {
        self.pre_release_flag = Some(PreReleaseFlag::beta)
    }

    /// Remove the alpha/beta tag.
    pub fn remove_flag(&mut self)
        ensures
            *final(self) == spec_remove_flag(*old(self)),
    {
        self.pre_release_flag = None
    }
}

/// A builder for `SemanticVersion`: every field starts at its default
/// (a fresh "0.1.0") and may be overridden before `build` is called.
#[derive(Clone, Copy, Debug)]
pub struct SemanticVersionBuilder {
    pub major: u16,
    pub minor: u16,
    pub patch: u16,
    pub build_iteration: u16,
    pub pre_release_flag: Option<PreReleaseFlag>,
}

/// The version a builder in state `b` produces.
pub open spec fn spec_built_version(b: SemanticVersionBuilder) -> SemanticVersion {
    SemanticVersion {
        major: b.major,
        minor: b.minor,
        patch: b.patch,
        build_iteration: b.build_iteration,
        pre_release_flag: b.pre_release_flag,
    }
}

impl Default for SemanticVersionBuilder {
    /// A builder whose fields all hold their defaults: building it at once
    /// yields the fresh version "0.1.0".
    fn default() -> (r: Self)
        ensures
            spec_built_version(r) == spec_default_version(),
    {
        SemanticVersionBuilder {
            major: 0,
            minor: 1,
            patch: 0,
            build_iteration: 0,
            pre_release_flag: None,
        }
    }
}

impl SemanticVersionBuilder {
    /// Override the major component.
    pub fn major(&mut self, value: u16) -> (r: &mut Self)
        ensures
            *r == (SemanticVersionBuilder { major: value, ..*old(self) }),
            *final(self) == *final(r),
    {
        self.major = value;
        self
    }

    /// Override the minor component.
    pub fn minor(&mut self, value: u16) -> (r: &mut Self)
        ensures
            *r == (SemanticVersionBuilder { minor: value, ..*old(self) }),
            *final(self) == *final(r),
    {
        self.minor = value;
        self
    }

    /// Override the patch component.
    pub fn patch(&mut self, value: u16) -> (r: &mut Self)
        ensures
            *r == (SemanticVersionBuilder { patch: value, ..*old(self) }),
            *final(self) == *final(r),
    {
        self.patch = value;
        self
    }

    /// Override the build counter.
    pub fn build_iteration(&mut self, value: u16) -> (r: &mut Self)
        ensures
            *r == (SemanticVersionBuilder { build_iteration: value, ..*old(self) }),
            *final(self) == *final(r),
    {
        self.build_iteration = value;
        self
    }

    /// Mark the built version as an alpha pre-release.
    pub fn as_alpha(&mut self) -> (r: &mut Self)
        ensures
            *r == (SemanticVersionBuilder {
                pre_release_flag: Some(PreReleaseFlag::alpha),
                ..*old(self)
            }),
            *final(self) == *final(r),
    {
        self.pre_release_flag = Some(PreReleaseFlag::alpha);
        self
    }

    /// Mark the built version as a beta pre-release.
    pub fn as_beta(&mut self) -> (r: &mut Self)
        ensures
            *r == (SemanticVersionBuilder {
                pre_release_flag: Some(PreReleaseFlag::beta),
                ..*old(self)
            }),
            *final(self) == *final(r),
    {
        self.pre_release_flag = Some(PreReleaseFlag::beta);
        self
    }

    /// Produce the version the builder describes. Every field has a default,
    /// so building always succeeds.
    pub fn build(&self) -> (r: Option<SemanticVersion>)
        ensures
            r == Some(spec_built_version(*self)),
    {
        Some(
            SemanticVersion {
                major: self.major,
                minor: self.minor,
                patch: self.patch,
                build_iteration: self.build_iteration,
                pre_release_flag: self.pre_release_flag,
            },
        )
    }
}

/// Setting a tag and setting it again later keeps only the last tag, and
/// clearing afterwards leaves no tag; the numeric fields are untouched
/// throughout.
pub proof fn lemma_pre_release_lifecycle(v: SemanticVersion)
    ensures
        spec_remove_flag(spec_set_beta(spec_set_alpha(v))) == (SemanticVersion {
            pre_release_flag: None,
            ..v
        }),
        spec_set_beta(spec_set_alpha(v)) == spec_set_beta(v),
{
}

/// A build increment never clears an active pre-release tag: the tag after
/// `inc_build` is exactly the tag before it.
pub proof fn lemma_inc_build_keeps_flag(v: SemanticVersion)
    ensures
        spec_inc_build(v).pre_release_flag == v.pre_release_flag,
        spec_inc_build(v).major == v.major,
        spec_inc_build(v).minor == v.minor,
        spec_inc_build(v).patch == v.patch,
{
}

} // verus!
