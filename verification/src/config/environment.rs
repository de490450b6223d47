//! Deployment environments and what depends on them: file names, search paths, prefixes.
use vstd::prelude::*;

verus! {

/// What `str::to_lowercase` makes of a string.
pub uninterp spec fn lowercase_of(s: Seq<char>) -> Seq<char>;

/// What lowercasing does to an ASCII character: 'A' to 'Z' become 'a' to 'z', every other
/// character stays.
pub open spec fn ascii_lower_char(c: char) -> char {
    if 65 <= (c as u32) <= 90 {
        ((c as u32) + 32) as char
    } else {
        c
    }
}

/// What lowercasing does to an ASCII string, character by character.
pub open spec fn ascii_lower(s: Seq<char>) -> Seq<char> {
    s.map_values(|c: char| ascii_lower_char(c))
}

/// `str::to_lowercase`: the lowercase form of the string, as the standard library defines it
/// for Unicode. For an ASCII string that is `ascii_lower`, as its documentation says; for other
/// strings the result is named, not stated.
#[verifier::external_body]
fn to_lowercase(s: &str) -> (r: String)
    ensures
        r@ == lowercase_of(s@),
        vstd::utf8::is_ascii_chars(s@) ==> r@ == ascii_lower(s@),
{
    s.to_lowercase()
}

/// Deployment environment of the core.
#[derive(Clone, Copy, Debug, PartialEq, Eq, Structural)]
pub enum Environment {
    /// Relaxed security, verbose logging, local defaults.
    Development,
    /// Moderate security, structured logging, test-friendly defaults.
    Test,
    /// Strict security, optimized logging, production defaults.
    Production,
}

/// The environment a lowercase name denotes: "development", "dev" and "develop"; "test" and
/// "testing"; "production" and "prod".
pub open spec fn environment_of_lowercase(l: Seq<char>) -> Option<Environment> {
    if l == "development"@ || l == "dev"@ || l == "develop"@ {
        Some(Environment::Development)
    } else if l == "test"@ || l == "testing"@ {
        Some(Environment::Test)
    } else if l == "production"@ || l == "prod"@ {
        Some(Environment::Production)
    } else {
        None
    }
}

/// The environment a name denotes, compared without case (see `environment_of_lowercase`).
pub open spec fn environment_named(s: Seq<char>) -> Option<Environment> {
    environment_of_lowercase(lowercase_of(s))
}

/// The message for a name that denotes no environment.
pub open spec fn invalid_environment_message(s: Seq<char>) -> Seq<char> {
    "Invalid environment: '"@ + s + "'. Valid options: development, test, production"@
}

/// The first of the values that names an environment, if any.
pub open spec fn first_environment(values: Seq<Option<String>>, i: int) -> Option<Environment>
    decreases values.len() - i,
{
    if i < 0 || i >= values.len() {
        None
    } else {
        match values[i] {
            Some(v) => match environment_named(v@) {
                Some(e) => Some(e),
                None => first_environment(values, i + 1),
            },
            None => first_environment(values, i + 1),
        }
    }
}

fn str_to_string(s: &str) -> (r: String)
    ensures
        r@ == s@,
{
    String::from_str(s)
}

fn seq_is(a: &String, b: &str) -> (r: bool)
    ensures
        r == (a@ == b@),
{
    let t = String::from_str(b);
    *a == t
}

impl Environment {
    /// The environment a name denotes (see `environment_named`), or the message saying that the
    /// name is not valid.
    pub fn parse_name(s: &str) -> (r: Result<Environment, String>)
        ensures
            match environment_named(s@) {
                Some(e) => r == Ok::<Environment, String>(e),
                None => r is Err && r->Err_0@ == invalid_environment_message(s@),
            },
            vstd::utf8::is_ascii_chars(s@) ==> environment_named(s@) == environment_of_lowercase(
                ascii_lower(s@),
            ),
    {
        let l = to_lowercase(s);
        if seq_is(&l, "development") || seq_is(&l, "dev") || seq_is(&l, "develop") {
            Ok(Environment::Development)
        } else if seq_is(&l, "test") || seq_is(&l, "testing") {
            Ok(Environment::Test)
        } else if seq_is(&l, "production") || seq_is(&l, "prod") {
            Ok(Environment::Production)
        } else {
            let m = str_to_string("Invalid environment: '").concat(s).concat(
                "'. Valid options: development, test, production",
            );
            Err(m)
        }
    }

    /// The environment selected by the values of the variables VEX_ENV, ENVIRONMENT, ENV and
    /// NODE_ENV, in that order (`None` for an unset variable): the first value that names an
    /// environment, if any.
    pub fn detect_explicit_from(values: &Vec<Option<String>>) -> (r: Option<Environment>)
        ensures
            r == first_environment(values@, 0),
    {
        let n = values.len();
        let mut i: usize = 0;
        while i < n
            invariant
                0 <= i <= n,
                n == values@.len(),
                first_environment(values@, 0) == first_environment(values@, i as int),
            decreases n - i,
        {
            match &values[i] {
                Some(v) => {
                    match Self::parse_name(v.as_str()) {
                        Ok(e) => {
                            return Some(e);
                        },
                        Err(_) => {},
                    }
                },
                None => {},
            }
            i = i + 1;
        }
        None
    }

    /// As `detect_explicit_from`, with `Development` when no value names an environment.
    pub fn detect_from(values: &Vec<Option<String>>) -> (r: Environment)
        ensures
            r == (match first_environment(values@, 0) {
                Some(e) => e,
                None => Environment::Development,
            }),
    {
        match Self::detect_explicit_from(values) {
            Some(e) => e,
            None => Environment::Development,
        }
    }

    /// Whether this is the development environment.
    pub fn is_development(&self) -> (r: bool)
        ensures
            r == (*self == Environment::Development),
    {
        match self {
            Environment::Development => true,
            _ => false,
        }
    }

    /// Whether this is the test environment.
    pub fn is_test(&self) -> (r: bool)
        ensures
            r == (*self == Environment::Test),
    {
        match self {
            Environment::Test => true,
            _ => false,
        }
    }

    /// Whether this is the production environment.
    pub fn is_production(&self) -> (r: bool)
        ensures
            r == (*self == Environment::Production),
    {
        match self {
            Environment::Production => true,
            _ => false,
        }
    }

    pub open spec fn spec_config_file_name(self) -> Seq<char> {
        match self {
            Environment::Development => "config.dev"@,
            Environment::Test => "config.test"@,
            Environment::Production => "config.prod"@,
        }
    }

    /// Base name of the configuration file of this environment.
    pub fn config_file_name(&self) -> (r: String)
        ensures
            r@ == self.spec_config_file_name(),
    {
        match self {
            Environment::Development => str_to_string("config.dev"),
            Environment::Test => str_to_string("config.test"),
            Environment::Production => str_to_string("config.prod"),
        }
    }

    pub open spec fn spec_config_paths(self) -> Seq<Seq<char>> {
        let b = self.spec_config_file_name();
        seq![
            "./"@ + b + ".toml"@,
            "./"@ + b + ".yaml"@,
            "./"@ + b + ".yml"@,
            "./"@ + b + ".json"@,
            "./config/"@ + b + ".toml"@,
            "./config/"@ + b + ".yaml"@,
            "./config/"@ + b + ".yml"@,
            "./config/"@ + b + ".json"@,
            "/etc/vex/"@ + b + ".toml"@,
            "/etc/vex/"@ + b + ".yaml"@,
            "/etc/vex/"@ + b + ".yml"@,
            "/etc/vex/"@ + b + ".json"@,
        ]
    }

    /// Where to look for the configuration file of this environment, in order: the working
    /// directory, `./config`, then `/etc/vex`, each with the extensions toml, yaml, yml and
    /// json.
    pub fn default_config_paths(&self) -> (r: Vec<String>)
        ensures
            r@.len() == 12,
            forall|k: int| 0 <= k < 12 ==> (#[trigger] r@[k])@ == self.spec_config_paths()[k],
    {
        let base = self.config_file_name();
        let dirs = ["./", "./config/", "/etc/vex/"];
        let exts = [".toml", ".yaml", ".yml", ".json"];
        let mut out: Vec<String> = Vec::new();
        let mut d: usize = 0;
        while d < 3
            invariant
                0 <= d <= 3,
                base@ == self.spec_config_file_name(),
                dirs@ == seq!["./", "./config/", "/etc/vex/"],
                exts@ == seq![".toml", ".yaml", ".yml", ".json"],
                out@.len() == 4 * d,
                forall|k: int| 0 <= k < 4 * d ==> (#[trigger] out@[k])@ == self.spec_config_paths()[k],
            decreases 3 - d,
        {
            let mut x: usize = 0;
            while x < 4
                invariant
                    0 <= d < 3,
                    0 <= x <= 4,
                    base@ == self.spec_config_file_name(),
                    dirs@ == seq!["./", "./config/", "/etc/vex/"],
                    exts@ == seq![".toml", ".yaml", ".yml", ".json"],
                    out@.len() == 4 * d + x,
                    forall|k: int| 0 <= k < 4 * d + x ==> (#[trigger] out@[k])@ == self.spec_config_paths()[k],
                decreases 4 - x,
            {
                let p = str_to_string(dirs[d]).concat(base.as_str()).concat(exts[x]);
                proof {
                    reveal_strlit("./");
                    reveal_strlit("./config/");
                    reveal_strlit("/etc/vex/");
                    reveal_strlit(".toml");
                    reveal_strlit(".yaml");
                    reveal_strlit(".yml");
                    reveal_strlit(".json");
                }
                out.push(p);
                x = x + 1;
            }
            d = d + 1;
        }
        out
    }

    pub open spec fn spec_env_prefix(self) -> Seq<char> {
        match self {
            Environment::Development => "VEX_DEV"@,
            Environment::Test => "VEX_TEST"@,
            Environment::Production => "VEX_PROD"@,
        }
    }

    /// Prefix of the environment variables that override settings in this environment.
    pub fn env_prefix(&self) -> (r: String)
        ensures
            r@ == self.spec_env_prefix(),
    {
        match self {
            Environment::Development => str_to_string("VEX_DEV"),
            Environment::Test => str_to_string("VEX_TEST"),
            Environment::Production => str_to_string("VEX_PROD"),
        }
    }

    pub open spec fn spec_name(self) -> Seq<char> {
        match self {
            Environment::Development => "development"@,
            Environment::Test => "test"@,
            Environment::Production => "production"@,
        }
    }

    /// The environment's name: "development", "test" or "production".
    pub fn to_string(&self) -> (r: String)
        ensures
            r@ == self.spec_name(),
    {
        match self {
            Environment::Development => str_to_string("development"),
            Environment::Test => str_to_string("test"),
            Environment::Production => str_to_string("production"),
        }
    }
}

/// Names round-trip: the name an environment is written with is ASCII and, read back without
/// case, denotes that environment; so `parse_name` of `to_string` gives the environment back.
pub proof fn law_environment_name_round_trip(e: Environment)
    ensures
        vstd::utf8::is_ascii_chars(e.spec_name()),
        environment_of_lowercase(ascii_lower(e.spec_name())) == Some(e),
{
    reveal_strlit("development");
    reveal_strlit("dev");
    reveal_strlit("develop");
    reveal_strlit("test");
    reveal_strlit("testing");
    reveal_strlit("production");
    reveal_strlit("prod");
    let n = e.spec_name();
    assert(ascii_lower(n) =~= n);
    match e {
        Environment::Development => {
            assert(n != "dev"@);
        },
        Environment::Test => {
            assert(n != "development"@ && n != "dev"@ && n != "develop"@);
        },
        Environment::Production => {
            assert(n != "development"@ && n != "dev"@ && n != "develop"@);
            assert(n != "test"@ && n != "testing"@);
        },
    }
}

impl Default for Environment {
    /// Development.
    fn default() -> (r: Environment)
        ensures
            r == Environment::Development,
    {
        Environment::Development
    }
}

impl std::str::FromStr for Environment {
    type Err = String;

    /// As `parse_name`: the environment the name denotes, or the message that it is not valid.
    fn from_str(s: &str) -> (r: Result<Environment, String>)
        ensures
            match environment_named(s@) {
                Some(e) => r == Ok::<Environment, String>(e),
                None => r is Err && r->Err_0@ == invalid_environment_message(s@),
            },
            vstd::utf8::is_ascii_chars(s@) ==> environment_named(s@) == environment_of_lowercase(
                ascii_lower(s@),
            ),
    {
        Environment::parse_name(s)
    }
}

} // verus!
