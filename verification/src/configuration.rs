//! Service settings: how the database connection string and the public
//! bucket URL are derived from them.

use vstd::prelude::*;
use crate::text::{lowercase, lower_of};
use crate::scan::{replace_all, spec_replace_all};
use vstd::string::StringExecFns;

verus! {

/// Connection settings for the metadata store.
#[derive(Debug)]
pub struct DatabaseSettings {
    pub host: String,
    pub port: String,
    pub username: String,
    pub password: String,
    pub production_database_name: String,
    pub test_database_name: String,
}

impl Clone for DatabaseSettings {
    fn clone(&self) -> (r: Self)
        ensures
            r == *self,
    {
        DatabaseSettings {
            host: self.host.clone(),
            port: self.port.clone(),
            username: self.username.clone(),
            password: self.password.clone(),
            production_database_name: self.production_database_name.clone(),
            test_database_name: self.test_database_name.clone(),
        }
    }
}

/// Names and credentials of the object-store bucket.
#[derive(Debug)]
pub struct S3Bucket {
    pub region: String,
    pub bucket: String,
    pub endpoint_url: String,
    pub access_key: String,
    pub secret_access_key: String,
}

impl Clone for S3Bucket {
    fn clone(&self) -> (r: Self)
        ensures
            r == *self,
    {
        S3Bucket {
            region: self.region.clone(),
            bucket: self.bucket.clone(),
            endpoint_url: self.endpoint_url.clone(),
            access_key: self.access_key.clone(),
            secret_access_key: self.secret_access_key.clone(),
        }
    }
}

/// The whole service configuration.
#[derive(Debug)]
pub struct Settings {
    pub in_production_mode: bool,
    pub application_port: String,
    pub temp_dir: String,
    pub database: DatabaseSettings,
    pub s3_bucket: S3Bucket,
}

impl Clone for Settings {
    fn clone(&self) -> (r: Self)
        ensures
            r == *self,
    {
        Settings {
            in_production_mode: self.in_production_mode,
            application_port: self.application_port.clone(),
            temp_dir: self.temp_dir.clone(),
            database: self.database.clone(),
            s3_bucket: self.s3_bucket.clone(),
        }
    }
}

impl Settings {
    /// The connection string: credentials, host, port, and the database
    /// that matches the mode.
    pub open spec fn spec_database_connection_string(self) -> Seq<char> {
        "postgres://"@ + self.database.username@ + ":"@ + self.database.password@ + "@"@
            + self.database.host@ + ":"@ + self.database.port@ + "/"@ + (
        if self.in_production_mode {
            self.database.production_database_name@
        } else {
            self.database.test_database_name@
        })
    }

    /// Builds the connection string for the configured database.
    pub fn database_connection_string(&self) -> (r: String)
        ensures
            r@ == self.spec_database_connection_string(),
    {
        let mut out = String::from_str("postgres://");
        out.append(self.database.username.as_str());
        out.append(":");
        out.append(self.database.password.as_str());
        out.append("@");
        out.append(self.database.host.as_str());
        out.append(":");
        out.append(self.database.port.as_str());
        out.append("/");
        if self.in_production_mode {
            out.append(self.database.production_database_name.as_str());
        } else {
            out.append(self.database.test_database_name.as_str());
        }
        out
    }
}

impl S3Bucket {
    /// The public URL of the bucket: the endpoint lowercased, with the
    /// bucket name spliced in after the scheme.
    pub open spec fn spec_full_link(self) -> Seq<char> {
        spec_replace_all(
            lower_of(self.endpoint_url@),
            "https://"@,
            "https://"@ + self.bucket@ + "."@,
        )
    }

    /// Derives the public URL of the bucket from its endpoint.
    pub fn full_link(&self) -> (r: String)
        ensures
            r@ == self.spec_full_link(),
    {
        let link = lowercase(self.endpoint_url.as_str());
        let mut rep = String::from_str("https://");
        rep.append(self.bucket.as_str());
        rep.append(".");
        proof {
            reveal_strlit("https://");
        }
        replace_all(link.as_str(), "https://", rep.as_str())
    }
}

} // verus!
