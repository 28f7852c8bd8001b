use crate::digits::{all_digits, is_digit_char, lemma_spec_digits_wf, number_string, spec_digits};
use crate::semantic_version::{PreReleaseFlag, SemanticVersion};
use colored::Colorize;
use vstd::prelude::*;
use vstd::string::StringExecFns;

verus! {

/// The text of the pre-release segment: empty without a tag, otherwise the
/// dash-prefixed lowercase tag name.
pub open spec fn spec_pre_release_part(flag: Option<PreReleaseFlag>) -> Seq<char> {
    match flag {
        None => Seq::empty(),
        Some(PreReleaseFlag::alpha) => seq!['-', 'a', 'l', 'p', 'h', 'a'],
        Some(PreReleaseFlag::beta) => seq!['-', 'b', 'e', 't', 'a'],
    }
}

/// The text of the build segment: empty while the counter is zero, otherwise
/// a plus sign followed by the counter in decimal.
pub open spec fn spec_build_part(build: u16) -> Seq<char> {
    if build == 0 {
        Seq::empty()
    } else {
        seq!['+'] + spec_digits(build as nat)
    }
}

/// The dotted numeric core of the version text: "major.minor.patch".
pub open spec fn spec_version_core(v: SemanticVersion) -> Seq<char> {
    spec_digits(v.major as nat) + seq!['.'] + spec_digits(v.minor as nat) + seq!['.']
        + spec_digits(v.patch as nat)
}

/// The one canonical text form of a version: the numeric core, then the
/// pre-release segment, then the build segment.
pub open spec fn spec_render(v: SemanticVersion) -> Seq<char> {
    spec_version_core(v) + spec_pre_release_part(v.pre_release_flag) + spec_build_part(
        v.build_iteration,
    )
}

/// The escape sequence that turns the foreground magenta.
pub open spec fn magenta_prefix() -> Seq<char> {
    seq!['\u{1b}', '[', '3', '5', 'm']
}

/// The escape sequence that turns the foreground cyan.
pub open spec fn cyan_prefix() -> Seq<char> {
    seq!['\u{1b}', '[', '3', '6', 'm']
}

/// The escape sequence that turns the foreground green.
pub open spec fn green_prefix() -> Seq<char> {
    seq!['\u{1b}', '[', '3', '2', 'm']
}

/// The escape sequence that resets all colouring.
pub open spec fn colour_reset() -> Seq<char> {
    seq!['\u{1b}', '[', '0', 'm']
}

/// What a coloured segment may look like: the plain text unchanged (colours
/// disabled) or wrapped in the given colour prefix and the reset sequence
/// (colours enabled).
pub open spec fn coloured_form(out: Seq<char>, prefix: Seq<char>, plain: Seq<char>) -> bool {
    out == plain || out == prefix + plain + colour_reset()
}

/// True when no character of the string is the ANSI escape character.
pub open spec fn escape_free(s: Seq<char>) -> bool {
    forall|i: int| 0 <= i < s.len() ==> s[i] != '\u{1b}'
}

/// Relies on colored's `Colorize::magenta` on `&str` and `ColoredString`'s
/// `Display`: the text is written unchanged when colouring is disabled, and
/// wrapped in the magenta escape sequence and the reset sequence when it is
/// enabled. The input holds no escape character, so no inner reset sequence
/// is rewritten.
#[verifier::external_body]
fn paint_magenta(s: &str) -> (r: String)
    requires
        escape_free(s@),
    ensures
        coloured_form(r@, magenta_prefix(), s@),
{
    s.magenta().to_string()
}

/// Relies on colored's `Colorize::cyan` on `&str` and `ColoredString`'s
/// `Display`: the text is written unchanged when colouring is disabled, and
/// wrapped in the cyan escape sequence and the reset sequence when it is
/// enabled. The input holds no escape character, so no inner reset sequence
/// is rewritten.
#[verifier::external_body]
fn paint_cyan(s: &str) -> (r: String)
    requires
        escape_free(s@),
    ensures
        coloured_form(r@, cyan_prefix(), s@),
{
    s.cyan().to_string()
}

/// Relies on colored's `Colorize::green` on `&str` and `ColoredString`'s
/// `Display`: the text is written unchanged when colouring is disabled, and
/// wrapped in the green escape sequence and the reset sequence when it is
/// enabled. The input holds no escape character, so no inner reset sequence
/// is rewritten.
#[verifier::external_body]
fn paint_green(s: &str) -> (r: String)
    requires
        escape_free(s@),
    ensures
        coloured_form(r@, green_prefix(), s@),
{
    s.green().to_string()
}

/// A digit string never holds the escape character.
proof fn lemma_digits_escape_free(n: nat)
    ensures
        escape_free(spec_digits(n)),
{
    lemma_spec_digits_wf(n);
    assert forall|i: int| 0 <= i < spec_digits(n).len() implies spec_digits(n)[i] != '\u{1b}' by {
        assert(is_digit_char(spec_digits(n)[i]));
    }
}

/// No segment of the rendered version text holds the escape character.
proof fn lemma_render_parts_escape_free(v: SemanticVersion)
    ensures
        escape_free(spec_version_core(v)),
        escape_free(spec_pre_release_part(v.pre_release_flag)),
        escape_free(spec_build_part(v.build_iteration)),
{
    lemma_digits_escape_free(v.major as nat);
    lemma_digits_escape_free(v.minor as nat);
    lemma_digits_escape_free(v.patch as nat);
    lemma_digits_escape_free(v.build_iteration as nat);
}

impl SemanticVersion {
    /// The dotted numeric core "major.minor.patch" as executable text.
    fn version_core_string(&self) -> (r: String)
        ensures
            r@ == spec_version_core(*self),
    {
        let mut s = number_string(self.major);
        s.append(".");
        let minor_str = number_string(self.minor);
        s.append(minor_str.as_str());
        s.append(".");
        let patch_str = number_string(self.patch);
        s.append(patch_str.as_str());
        proof {
            reveal_strlit(".");
            assert(s@ =~= spec_version_core(*self));
        }
        s
    }

    /// The pre-release segment as executable text.
    fn pre_release_string(&self) -> (r: String)
        ensures
            r@ == spec_pre_release_part(self.pre_release_flag),
    {
        match self.pre_release_flag {
            None => String::new(),
            Some(PreReleaseFlag::alpha) => {
                let r = "-alpha".to_owned();
                proof {
                    reveal_strlit("-alpha");
                    assert(r@ =~= spec_pre_release_part(self.pre_release_flag));
                }
                r
            },
            Some(PreReleaseFlag::beta) => {
                let r = "-beta".to_owned();
                proof {
                    reveal_strlit("-beta");
                    assert(r@ =~= spec_pre_release_part(self.pre_release_flag));
                }
                r
            },
        }
    }

    /// The build segment as executable text.
    fn build_string(&self) -> (r: String)
        ensures
            r@ == spec_build_part(self.build_iteration),
    {
        if self.build_iteration == 0 {
            String::new()
        } else {
            let mut s = "+".to_owned();
            let build_str = number_string(self.build_iteration);
            s.append(build_str.as_str());
            proof {
                reveal_strlit("+");
                assert(s@ =~= spec_build_part(self.build_iteration));
            }
            s
        }
    }

    /// The canonical plain text form of the version.
    pub fn to_string(&self) -> (r: String)
        ensures
            r@ == spec_render(*self),
    {
        let mut s = self.version_core_string();
        let pre = self.pre_release_string();
        s.append(pre.as_str());
        let build = self.build_string();
        s.append(build.as_str());
        s
    }

    /// The version text with each segment coloured for a terminal: the
    /// numeric core magenta, the pre-release segment cyan, the build segment
    /// green. Whether colour is actually applied is the terminal library's
    /// decision, so each segment is promised only to be its plain text,
    /// bare or wrapped in its colour's escape sequences.
    pub fn coloured_to_string(&self) -> (r: String)
        ensures
            exists|a: Seq<char>, b: Seq<char>, c: Seq<char>|
                r@ == a + b + c && #[trigger] coloured_form(a, magenta_prefix(), spec_version_core(*self))
                    && #[trigger] coloured_form(b, cyan_prefix(), spec_pre_release_part(self.pre_release_flag))
                    && #[trigger] coloured_form(c, green_prefix(), spec_build_part(self.build_iteration)),
    {
        proof {
            lemma_render_parts_escape_free(*self);
        }
        let core = self.version_core_string();
        let pre = self.pre_release_string();
        let build = self.build_string();
        let mut out = paint_magenta(core.as_str());
        let coloured_pre = paint_cyan(pre.as_str());
        out.append(coloured_pre.as_str());
        let coloured_build = paint_green(build.as_str());
        out.append(coloured_build.as_str());
        out
    }
}

} // verus!
