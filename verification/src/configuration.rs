//! Connection settings and the object-store key layout. The environment
//! reading itself is the embedding program's concern; this module holds the
//! verified string assembly.

use vstd::prelude::*;
use vstd::string::StringExecFns;
use crate::text::{spec_dec, spec_dec_pad, push_dec, push_dec_pad};

verus! {

/// Relational store connection settings.
pub struct DatabaseSettings {
    pub endpoint: String,
    pub port: u16,
    pub user: String,
    pub password: String,
    pub database_name: String,
}

/// Object-store settings.
pub struct AwsSettings {
    pub bucket_name: String,
}

/// The program's settings.
pub struct Settings {
    pub database: DatabaseSettings,
    pub aws: AwsSettings,
}

/// The connection string of a database settings value, including the
/// database name and the character-set parameters.
pub open spec fn spec_connection_string(d: DatabaseSettings) -> Seq<char> {
    "mysql://"@ + d.user@ + ":"@ + d.password@ + "@"@ + d.endpoint@ + ":"@ + spec_dec(
        d.port as nat,
    ) + "/"@ + d.database_name@ + "?charset=utf8mb4&collation=utf8mb4_unicode_ci"@
}

/// The connection string without a database name.
pub open spec fn spec_connection_string_without_db(d: DatabaseSettings) -> Seq<char> {
    "mysql://"@ + d.user@ + ":"@ + d.password@ + "@"@ + d.endpoint@ + ":"@ + spec_dec(
        d.port as nat,
    )
}

impl DatabaseSettings {
    /// The connection string, database name and charset parameters
    /// included.
    pub fn connection_string(&self) -> (s: String)
        ensures
            s@ == spec_connection_string(*self),
    {
        let mut s = String::from_str("mysql://");
        s.append(self.user.as_str());
        s.append(":");
        s.append(self.password.as_str());
        s.append("@");
        s.append(self.endpoint.as_str());
        s.append(":");
        push_dec(&mut s, self.port as u64);
        s.append("/");
        s.append(self.database_name.as_str());
        s.append("?charset=utf8mb4&collation=utf8mb4_unicode_ci");
        proof {
            assert(s@ =~= spec_connection_string(*self));
        }
        s
    }

    /// The connection string up to the host and port.
    pub fn connection_string_without_db(&self) -> (s: String)
        ensures
            s@ == spec_connection_string_without_db(*self),
    {
        let mut s = String::from_str("mysql://");
        s.append(self.user.as_str());
        s.append(":");
        s.append(self.password.as_str());
        s.append("@");
        s.append(self.endpoint.as_str());
        s.append(":");
        push_dec(&mut s, self.port as u64);
        proof {
            assert(s@ =~= spec_connection_string_without_db(*self));
        }
        s
    }
}

impl AwsSettings {
    /// The configured bucket name.
    pub fn bucket_name(&self) -> (s: String)
        ensures
            s@ == self.bucket_name@,
    {
        self.bucket_name.clone()
    }
}

/// The object-store key of a metric batch processed at the given instant:
/// date-partitioned by year, month and day, with the full timestamp in the
/// object name.
pub open spec fn spec_bucket_key(
    year: u16,
    month: u8,
    day: u8,
    hour: u8,
    minute: u8,
    second: u8,
) -> Seq<char> {
    "data-lake-metrics-teg-hy/year="@ + spec_dec_pad(year as nat, 4) + "/month="@ + spec_dec_pad(
        month as nat,
        2,
    ) + "/day="@ + spec_dec_pad(day as nat, 2) + "/data-lake-metrics-"@ + spec_dec_pad(
        year as nat,
        4,
    ) + "-"@ + spec_dec_pad(month as nat, 2) + "-"@ + spec_dec_pad(day as nat, 2) + "T"@
        + spec_dec_pad(hour as nat, 2) + ":"@ + spec_dec_pad(minute as nat, 2) + ":"@
        + spec_dec_pad(second as nat, 2) + ".json"@
}

/// Builds the date-partitioned object-store key for a batch processed at
/// the given civil instant (the caller supplies the current UTC time).
pub fn get_bucket_key(year: u16, month: u8, day: u8, hour: u8, minute: u8, second: u8) -> (s:
    String)
    ensures
        s@ == spec_bucket_key(year, month, day, hour, minute, second),
{
    let mut s = String::from_str("data-lake-metrics-teg-hy/year=");
    push_dec_pad(&mut s, year as u64, 4);
    s.append("/month=");
    push_dec_pad(&mut s, month as u64, 2);
    s.append("/day=");
    push_dec_pad(&mut s, day as u64, 2);
    s.append("/data-lake-metrics-");
    push_dec_pad(&mut s, year as u64, 4);
    s.append("-");
    push_dec_pad(&mut s, month as u64, 2);
    s.append("-");
    push_dec_pad(&mut s, day as u64, 2);
    s.append("T");
    push_dec_pad(&mut s, hour as u64, 2);
    s.append(":");
    push_dec_pad(&mut s, minute as u64, 2);
    s.append(":");
    push_dec_pad(&mut s, second as u64, 2);
    s.append(".json");
    proof {
        assert(s@ =~= spec_bucket_key(year, month, day, hour, minute, second));
    }
    s
}

} // verus!
