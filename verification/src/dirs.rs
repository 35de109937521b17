//! Where the engine keeps its files: the per-user data directories it
//! writes (logs, saves), derived from the platform's data directory with
//! separators normalized, and the game's own read-only directories under
//! the game directory.

use vstd::prelude::*;

verus! {

/// Appends one character.  Relies on `String::push`.
#[verifier::external_body]
fn push_char(s: &mut String, c: char)
    ensures
        final(s)@ == old(s)@.push(c),
{
    s.push(c);
}

/// Looks up the platform's per-user data directory.  Relies on the
/// `directories` crate's base-directory lookup; the result depends on the
/// environment, so nothing is promised of it.
#[verifier::external_body]
fn user_data_dir() -> (r: Option<String>)
{
    directories::BaseDirs::new().map(|b| b.data_dir().to_string_lossy().into_owned())
}

/// `s` with every backslash turned into a forward slash.
pub open spec fn slashed(s: Seq<char>) -> Seq<char> {
    s.map_values(
        |c: char|
            if c == '\\' {
                '/'
            } else {
                c
            },
    )
}

/// A well-formed engine data directory: some platform data directory,
/// separators normalized, with the engine's own segment appended.
pub open spec fn is_base_dir(s: Seq<char>) -> bool {
    exists|d: Seq<char>| s == slashed(d) + "/purpl/"@
}

/// Normalizes path separators to forward slashes.
pub fn normalize_separators(s: &str) -> (r: String)
    ensures
        r@ == slashed(s@),
{
    let mut out = String::new();
    let n = s.unicode_len();
    for i in 0..n
        invariant
            n == s@.len(),
            out@ == slashed(s@).take(i as int),
    {
        let c = s.get_char(i);
        let mapped = if c == '\\' {
            '/'
        } else {
            c
        };
        push_char(&mut out, mapped);
        proof {
            assert(slashed(s@).take(i as int).push(mapped) =~= slashed(s@).take(i + 1));
        }
    }
    proof {
        assert(slashed(s@).take(n as int) =~= slashed(s@));
    }
    out
}

/// The per-user directories the engine writes into.
pub struct DataDirs;

impl DataDirs {
    /// The engine's data directory: the platform data directory, separators
    /// normalized, plus the engine segment.  `None` when the platform
    /// reports no data directory for the user.
    pub fn base() -> (r: Option<String>)
        ensures
            r matches Some(b) ==> is_base_dir(b@),
    {
        match user_data_dir() {
            Some(d) => {
                let mut b = normalize_separators(d.as_str());
                b.append("/purpl/");
                proof {
                    assert(is_base_dir(b@)) by {
                        assert(b@ == slashed(d@) + "/purpl/"@);
                    }
                }
                Some(b)
            },
            None => None,
        }
    }

    /// The log directory, directly under the data directory.
    pub fn logs() -> (r: Option<String>)
        ensures
            r matches Some(l) ==> exists|b: Seq<char>| #[trigger]
                is_base_dir(b) && l@ == b + "logs/"@,
    {
        match Self::base() {
            Some(b) => {
                let ghost base_view = b@;
                let mut l = b;
                l.append("logs/");
                proof {
                    assert(is_base_dir(base_view) && l@ == base_view + "logs/"@);
                }
                Some(l)
            },
            None => None,
        }
    }

    /// The save-game directory, directly under the data directory.
    pub fn saves() -> (r: Option<String>)
        ensures
            r matches Some(s) ==> exists|b: Seq<char>| #[trigger]
                is_base_dir(b) && s@ == b + "saves/"@,
    {
        match Self::base() {
            Some(b) => {
                let ghost base_view = b@;
                let mut s = b;
                s.append("saves/");
                proof {
                    assert(is_base_dir(base_view) && s@ == base_view + "saves/"@);
                }
                Some(s)
            },
            None => None,
        }
    }

    /// Every directory the engine must create at startup: the data
    /// directory itself and the log and save directories under it.
    pub fn all() -> (r: Option<Vec<String>>)
        ensures
            r matches Some(v) ==> v@.len() == 3 && is_base_dir(v@[0]@) && v@[1]@ == v@[0]@
                + "logs/"@ && v@[2]@ == v@[0]@ + "saves/"@,
    {
        match Self::base() {
            Some(b) => {
                let mut logs = b.clone();
                logs.append("logs/");
                let mut saves = b.clone();
                saves.append("saves/");
                let mut v: Vec<String> = Vec::new();
                v.push(b);
                v.push(logs);
                v.push(saves);
                Some(v)
            },
            None => None,
        }
    }
}

/// The game's own read-only directories, under its game directory.
pub struct GameDirs;

impl GameDirs {
    /// The game directory itself, with a trailing separator.
    pub fn base(game_dir: &str) -> (r: String)
        ensures
            r@ == game_dir@ + "/"@,
    {
        let mut b = game_dir.to_owned();
        b.append("/");
        b
    }

    /// Where the game's models live.
    pub fn models(game_dir: &str) -> (r: String)
        ensures
            r@ == game_dir@ + "/"@ + "models/"@,
    {
        let mut b = Self::base(game_dir);
        b.append("models/");
        b
    }

    /// Where the game's shader binaries live.
    pub fn shaders(game_dir: &str) -> (r: String)
        ensures
            r@ == game_dir@ + "/"@ + "shaders/"@,
    {
        let mut b = Self::base(game_dir);
        b.append("shaders/");
        b
    }

    /// Where a named shader's binaries live: the shader directory plus the
    /// shader's name (the backend appends its stage suffixes).
    pub fn shader_path(game_dir: &str, name: &str) -> (r: String)
        ensures
            r@ == game_dir@ + "/"@ + "shaders/"@ + name@,
    {
        let mut b = Self::shaders(game_dir);
        b.append(name);
        b
    }

    /// Every game directory: the base and its model and shader directories.
    pub fn all(game_dir: &str) -> (r: Vec<String>)
        ensures
            r@.len() == 3,
            r@[0]@ == game_dir@ + "/"@,
            r@[1]@ == game_dir@ + "/"@ + "models/"@,
            r@[2]@ == game_dir@ + "/"@ + "shaders/"@,
    {
        let mut v: Vec<String> = Vec::new();
        v.push(Self::base(game_dir));
        v.push(Self::models(game_dir));
        v.push(Self::shaders(game_dir));
        v
    }
}

} // verus!
