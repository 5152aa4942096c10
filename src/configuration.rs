use vstd::prelude::*;

use crate::domain::str_eq;

verus! {

/// The whole application configuration.
pub struct Settings {
    pub database: DatabaseSettings,
    pub application: ApplicationSettings,
}

/// Where the application listens.
pub struct ApplicationSettings {
    pub port: u16,
    pub host: String,
}

/// How to reach the database.
pub struct DatabaseSettings {
    pub username: String,
    pub password: String,
    pub port: u16,
    pub host: String,
    pub database_name: String,
}

/// The runtime environment the application is deployed in.
#[derive(PartialEq, Eq, Structural, Clone, Copy, Debug)]
pub enum Environment {
    Local,
    Production,
}

/// The characters of `s` in lower case, as `str::to_lowercase` gives them.
pub uninterp spec fn lower_of(s: Seq<char>) -> Seq<char>;

/// Relies on `str::to_lowercase`: the result depends on the characters alone.
#[verifier::external_body]
fn lowercase(s: &str) -> (r: String)
    ensures
        r@ == lower_of(s@),
{
    s.to_lowercase()
}

/// The environment a lower-case name stands for.
pub open spec fn environment_named(name: Seq<char>) -> Option<Environment> {
    if name == "local"@ {
        Some(Environment::Local)
    } else if name == "production"@ {
        Some(Environment::Production)
    } else {
        None
    }
}

/// The message for a name that is no environment.
pub open spec fn unsupported_environment_message(name: Seq<char>) -> Seq<char> {
    name + " is not a supported environment. Use either local or production"@
}

/// The ten decimal digits, in order.
pub open spec fn digits() -> Seq<char> {
    "0123456789"@
}

/// Decimal notation of `n`, without leading zeros.
pub open spec fn decimal(n: nat) -> Seq<char>
    decreases n,
{
    if n < 10 {
        digits().subrange(n as int, n as int + 1)
    } else {
        decimal(n / 10) + digits().subrange((n % 10) as int, (n % 10) as int + 1)
    }
}

fn push_decimal(out: &mut String, n: u16)
    ensures
        final(out)@ == old(out)@ + decimal(n as nat),
    decreases n,
{
    proof {
        reveal_strlit("0123456789");
    }
    let all = "0123456789";
    if n < 10 {
        let d = n as usize;
        out.append(all.substring_char(d, d + 1));
    } else {
        push_decimal(out, n / 10);
        let d = (n % 10) as usize;
        out.append(all.substring_char(d, d + 1));
        proof {
            assert(old(out)@ + decimal(n as nat) =~= old(out)@ + decimal((n / 10) as nat)
                + digits().subrange(d as int, d as int + 1));
        }
    }
}

/// The address of the database server named by `db`.
pub open spec fn postgres_prefix(db: DatabaseSettings) -> Seq<char> {
    "postgres://"@ + db.username@ + ":"@ + db.password@ + "@"@ + db.host@ + ":"@ + decimal(
        db.port as nat,
    )
}

impl Environment {
    /// The name of the environment.
    pub open spec fn spec_name(self) -> Seq<char> {
        match self {
            Environment::Local => "local"@,
            Environment::Production => "production"@,
        }
    }

    /// The name of the environment, as used for its configuration file.
    pub fn as_str(&self) -> (r: &'static str)
        ensures
            r@ == self.spec_name(),
    {
        proof {
            reveal_strlit("local");
            reveal_strlit("production");
        }
        match self {
            Environment::Local => "local",
            Environment::Production => "production",
        }
    }

    /// The environment a lower-case name stands for.
    pub fn from_lowercase(name: &str) -> (r: Result<Environment, String>)
        ensures
            match environment_named(name@) {
                Some(e) => r == Ok::<Environment, String>(e),
                None => r matches Err(m) && m@ == unsupported_environment_message(name@),
            },
    {
        if str_eq(name, "local") {
            Ok(Environment::Local)
        } else if str_eq(name, "production") {
            Ok(Environment::Production)
        } else {
            let mut m = String::from_str(name);
            m.append(" is not a supported environment. Use either local or production");
            Err(m)
        }
    }

    /// The environment named by `s`, in any letter case.
    pub fn parse(s: String) -> (r: Result<Environment, String>)
        ensures
            match environment_named(lower_of(s@)) {
                Some(e) => r == Ok::<Environment, String>(e),
                None => r matches Err(m) && m@ == unsupported_environment_message(lower_of(s@)),
            },
    {
        let lowered = lowercase(s.as_str());
        Environment::from_lowercase(lowered.as_str())
    }
}

impl DatabaseSettings {
    /// The address of the configured database.
    pub fn connection_string(&self) -> (r: String)
        ensures
            r@ == postgres_prefix(*self) + "/"@ + self.database_name@,
    {
        let mut s = self.connection_string_without_db();
        s.append("/");
        s.append(self.database_name.as_str());
        s
    }

    /// The address of the database server, without a database.
    pub fn connection_string_without_db(&self) -> (r: String)
        ensures
            r@ == postgres_prefix(*self),
    {
        let mut s = String::from_str("postgres://");
        s.append(self.username.as_str());
        s.append(":");
        s.append(self.password.as_str());
        s.append("@");
        s.append(self.host.as_str());
        s.append(":");
        push_decimal(&mut s, self.port);
        s
    }
}

} // verus!
