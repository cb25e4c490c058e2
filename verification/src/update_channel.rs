//! The application's update channels and their names.
use crate::paths::{joined, lemma_join_keeps_non_verbatim, starts_verbatim, PACK_ID};
use vstd::prelude::*;
use vstd::string::{StrSliceExecFns, StringExecFns};

verus! {

/// Repository that update packages are published from.
pub const REPO_URL: &'static str = "https://github.com/odysseyarm/odyssey-desktop";

#[derive(Clone, Copy, PartialEq, Eq, Debug, Structural)]
pub enum UpdateChannel {
    Stable,
    Beta,
    Nightly,
}

impl Default for UpdateChannel {
    fn default() -> (r: Self)
        ensures
            r == UpdateChannel::Stable,
    {
        UpdateChannel::Stable
    }
}

/// The name of a channel as stored in the settings file.
pub open spec fn spec_channel_str(c: UpdateChannel) -> Seq<char> {
    match c {
        UpdateChannel::Stable => "stable"@,
        UpdateChannel::Beta => "beta"@,
        UpdateChannel::Nightly => "nightly"@,
    }
}

/// The name of a channel shown in the channel picker.
pub open spec fn spec_channel_label(c: UpdateChannel) -> Seq<char> {
    match c {
        UpdateChannel::Stable => "Stable"@,
        UpdateChannel::Beta => "Beta"@,
        UpdateChannel::Nightly => "Nightly"@,
    }
}

/// `s` with its ASCII capitals made small.
pub open spec fn spec_ascii_lowercase(s: Seq<char>) -> Seq<char> {
    Seq::new(s.len(), |i: int| if 'A' <= s[i] <= 'Z' { ((s[i] as u32) + 32) as char } else { s[i] })
}

/// The channel whose stored name is `s`, if any.
pub open spec fn spec_parse_channel(s: Seq<char>) -> Option<UpdateChannel> {
    if s == "stable"@ {
        Some(UpdateChannel::Stable)
    } else if s == "beta"@ {
        Some(UpdateChannel::Beta)
    } else if s == "nightly"@ {
        Some(UpdateChannel::Nightly)
    } else {
        None
    }
}

impl UpdateChannel {
    /// Every channel, in the order they are offered.
    pub fn all() -> (r: [UpdateChannel; 3])
        ensures
            r@ == seq![UpdateChannel::Stable, UpdateChannel::Beta, UpdateChannel::Nightly],
    {
        let r = [UpdateChannel::Stable, UpdateChannel::Beta, UpdateChannel::Nightly];
        assert(r@ =~= seq![UpdateChannel::Stable, UpdateChannel::Beta, UpdateChannel::Nightly]);
        r
    }

    pub fn as_str(self) -> (r: &'static str)
        ensures
            r@ == spec_channel_str(self),
    {
        match self {
            UpdateChannel::Stable => "stable",
            UpdateChannel::Beta => "beta",
            UpdateChannel::Nightly => "nightly",
        }
    }

    /// The name shown in the channel picker.
    pub fn label(self) -> (r: &'static str)
        ensures
            r@ == spec_channel_label(self),
            self == UpdateChannel::Stable ==> r@ == "Stable"@,
            self == UpdateChannel::Beta ==> r@ == "Beta"@,
            self == UpdateChannel::Nightly ==> r@ == "Nightly"@,
    {
        match self {
            UpdateChannel::Stable => "Stable",
            UpdateChannel::Beta => "Beta",
            UpdateChannel::Nightly => "Nightly",
        }
    }

    /// The channel with the given stored name, if any.
    pub fn parse(s: &str) -> (r: Option<Self>)
        ensures
            r == spec_parse_channel(s@),
    {
        let t = String::from_str(s);
        let stable = String::from_str("stable");
        let beta = String::from_str("beta");
        let nightly = String::from_str("nightly");
        if t == stable {
            Some(UpdateChannel::Stable)
        } else if t == beta {
            Some(UpdateChannel::Beta)
        } else if t == nightly {
            Some(UpdateChannel::Nightly)
        } else {
            None
        }
    }

    /// The package channel: `"win-x64-"` followed by the stored name.
    pub fn velopack_channel(self) -> (r: String)
        ensures
            r@ == "win-x64-"@ + spec_channel_str(self),
    {
        let mut s = String::from_str("win-x64-");
        s.append(self.as_str());
        s
    }

    /// Beta and nightly packages live on GitHub releases marked as prereleases.
    pub fn includes_prereleases(self) -> (r: bool)
        ensures
            r == (self != UpdateChannel::Stable),
    {
        match self {
            UpdateChannel::Stable => false,
            _ => true,
        }
    }
}

/// A channel's stored name reads back as that channel.
pub proof fn lemma_channel_name_round_trip(c: UpdateChannel)
    ensures
        spec_parse_channel(spec_channel_str(c)) == Some(c),
{
    reveal_strlit("stable");
    reveal_strlit("beta");
    reveal_strlit("nightly");
    match c {
        UpdateChannel::Stable => {},
        UpdateChannel::Beta => {
            assert("beta"@.len() != "stable"@.len());
        },
        UpdateChannel::Nightly => {
            assert("nightly"@.len() != "stable"@.len());
            assert("nightly"@.len() != "beta"@.len());
        },
    }
}

/// Unicode white space (`char::is_whitespace`).
pub open spec fn is_unicode_whitespace(c: char) -> bool {
    ||| ('\u{9}' <= c && c <= '\u{d}')
    ||| c == ' '
    ||| c == '\u{85}'
    ||| c == '\u{a0}'
    ||| c == '\u{1680}'
    ||| ('\u{2000}' <= c && c <= '\u{200a}')
    ||| c == '\u{2028}'
    ||| c == '\u{2029}'
    ||| c == '\u{202f}'
    ||| c == '\u{205f}'
    ||| c == '\u{3000}'
}

pub open spec fn trim_start(s: Seq<char>) -> Seq<char>
    decreases s.len(),
{
    if s.len() > 0 && is_unicode_whitespace(s[0]) {
        trim_start(s.drop_first())
    } else {
        s
    }
}

pub open spec fn trim_end(s: Seq<char>) -> Seq<char>
    decreases s.len(),
{
    if s.len() > 0 && is_unicode_whitespace(s.last()) {
        trim_end(s.drop_last())
    } else {
        s
    }
}

/// The text without leading and trailing white space (`str::trim`).
pub open spec fn spec_trim(s: Seq<char>) -> Seq<char> {
    trim_end(trim_start(s))
}

fn is_whitespace(c: char) -> (r: bool)
    ensures
        r == is_unicode_whitespace(c),
{
    ('\u{9}' <= c && c <= '\u{d}') || c == ' ' || c == '\u{85}' || c == '\u{a0}' || c == '\u{1680}' || (
    '\u{2000}' <= c && c <= '\u{200a}') || c == '\u{2028}' || c == '\u{2029}' || c == '\u{202f}' || c
        == '\u{205f}' || c == '\u{3000}'
}

/// `s` without leading and trailing white space.
pub fn trim(s: &str) -> (r: &str)
    ensures
        r@ == spec_trim(s@),
{
    let n = s.unicode_len();
    let mut a: usize = 0;
    assert(s@.subrange(0, n as int) =~= s@);
    while a < n && is_whitespace(s.get_char(a))
        invariant
            n == s@.len(),
            a <= n,
            trim_start(s@) == trim_start(s@.subrange(a as int, n as int)),
        decreases n - a,
    {
        assert(s@.subrange(a as int, n as int).drop_first() =~= s@.subrange(a + 1, n as int));
        a = a + 1;
    }
    let ghost t = s@.subrange(a as int, n as int);
    assert(trim_start(s@) == t);
    let mut b: usize = n;
    while b > a && is_whitespace(s.get_char(b - 1))
        invariant
            n == s@.len(),
            a <= b <= n,
            t == s@.subrange(a as int, n as int),
            trim_end(t) == trim_end(s@.subrange(a as int, b as int)),
        decreases b - a,
    {
        assert(s@.subrange(a as int, b as int).drop_last() =~= s@.subrange(a as int, b - 1));
        b = b - 1;
    }
    s.substring_char(a, b)
}

/// The channel stored in the channel file's text: its trimmed text read as
/// a channel name; the default channel when there is no file or the name is
/// unknown.
pub fn load_channel(file_text: Option<String>) -> (r: UpdateChannel)
    ensures
        r == match file_text {
            Some(t) => match spec_parse_channel(spec_trim(t@)) {
                Some(c) => c,
                None => UpdateChannel::Stable,
            },
            None => UpdateChannel::Stable,
        },
{
    match file_text {
        Some(t) => match UpdateChannel::parse(trim(t.as_str())) {
            Some(c) => c,
            None => UpdateChannel::default(),
        },
        None => UpdateChannel::default(),
    }
}

/// The channel file: `update_channel.txt` in the settings directory (the
/// install root), if the local application-data directory is known.
pub fn channel_file(local_app_data: Option<String>) -> (r: Option<String>)
    ensures
        match local_app_data {
            None => r is None,
            Some(d) => r matches Some(p) && (!starts_verbatim(d@) ==> exists|root: Seq<char>|
                joined(d@, PACK_ID@, root) && joined(root, "update_channel.txt"@, p@)),
        },
{
    proof {
        reveal_strlit("update_channel.txt");
        reveal_strlit("Odyssey.Desktop");
    }
    let ghost d = local_app_data;
    match crate::paths::settings_dir(local_app_data) {
        None => None,
        Some(dir) => {
            proof {
                if let Some(dd) = d {
                    if !starts_verbatim(dd@) {
                        lemma_join_keeps_non_verbatim(dd@, PACK_ID@, dir@);
                    }
                }
            }
            assert("update_channel.txt"@.len() == 18);
            Some(crate::paths::join_component(dir.as_str(), "update_channel.txt"))
        },
    }
}

/// A saved channel loads back as itself: the channel file holds its name,
/// which trimming leaves as it is.
pub proof fn lemma_saved_channel_loads_back(c: UpdateChannel)
    ensures
        spec_parse_channel(spec_trim(spec_channel_str(c))) == Some(c),
{
    reveal_strlit("stable");
    reveal_strlit("beta");
    reveal_strlit("nightly");
    let t = spec_channel_str(c);
    assert(!is_unicode_whitespace(t[0]));
    assert(trim_start(t) == t);
    assert(!is_unicode_whitespace(t.last()));
    assert(trim_end(t) == t);
    lemma_channel_name_round_trip(c);
}

/// Each channel is stored under the name shown for it in the picker, in
/// small letters, and that stored name reads back as the same channel: the
/// stored name, the shown name and the package channel of a channel all
/// agree.
pub proof fn lemma_channel_names_agree(c: UpdateChannel)
    ensures
        spec_channel_str(c) == spec_ascii_lowercase(spec_channel_label(c)),
        spec_parse_channel(spec_ascii_lowercase(spec_channel_label(c))) == Some(c),
        forall|d: UpdateChannel| spec_parse_channel(spec_channel_str(d)) == Some(c) ==> d == c,
{
    reveal_strlit("stable");
    reveal_strlit("beta");
    reveal_strlit("nightly");
    reveal_strlit("Stable");
    reveal_strlit("Beta");
    reveal_strlit("Nightly");
    assert(spec_channel_str(c) =~= spec_ascii_lowercase(spec_channel_label(c)));
    lemma_channel_name_round_trip(c);
    assert forall|d: UpdateChannel| spec_parse_channel(spec_channel_str(d)) == Some(c) implies d == c by {
        lemma_channel_name_round_trip(d);
    }
}

} // verus!
