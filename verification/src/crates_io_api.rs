//! The registry's answer to the question for a crate's newest version.

use vstd::prelude::*;
use vstd::string::*;

verus! {

/// Where the registry answers questions about crates.
pub const CRATES_IO_API_BASE: &'static str = "https://crates.io/api/v1/crates";

/// How this tool names itself to the registry.
pub const USER_AGENT: &'static str = "cargo-dokita/0.1.0";

/// Seconds after which a question to the registry is given up.
pub const REQUEST_TIMEOUT_SECS: u64 = 30;

/// The part of the registry's answer that describes the crate.
#[derive(Debug, Clone)]
pub struct CrateData {
    pub max_version: String,
}

/// One published version of a crate.
#[derive(Debug, Clone)]
pub struct CrateVersion {
    pub num: String,
    pub yanked: bool,
}

/// The registry's answer for one crate.
#[derive(Debug, Clone)]
pub struct CratesIoCrate {
    crate_data: CrateData,
    versions: Vec<CrateVersion>,
}

impl CratesIoCrate {
    /// The newest stable version.
    pub closed spec fn newest(&self) -> Seq<char> {
        self.crate_data.max_version@
    }

    /// The published versions, in the answer's order.
    pub closed spec fn published(&self) -> Seq<CrateVersion> {
        self.versions@
    }

    /// An answer made of its two parts.
    pub fn new(crate_data: CrateData, versions: Vec<CrateVersion>) -> (answer: CratesIoCrate)
        ensures
            answer.newest() == crate_data.max_version@,
            answer.published() == versions@,
    {
        CratesIoCrate { crate_data, versions }
    }

    /// The newest stable version.
    pub fn max_version(&self) -> (version: &str)
        ensures
            version@ == self.newest(),
    {
        self.crate_data.max_version.as_str()
    }

    /// The published versions, in the answer's order.
    pub fn versions(&self) -> (versions: &Vec<CrateVersion>)
        ensures
            versions@ == self.published(),
    {
        &self.versions
    }
}

/// What came back from the registry: nothing, because the request failed
/// on the way, or a status with the body that was read from the answer.
#[derive(Debug)]
pub enum RegistryReply {
    Unreachable(String),
    Answered { success: bool, status: String, body: Result<CratesIoCrate, String> },
}

/// The address to ask for a crate.
pub open spec fn url_of(base: Seq<char>, crate_name: Seq<char>) -> Seq<char> {
    base + "/"@ + crate_name
}

/// The address to ask for a crate.
pub fn registry_url(base: &str, crate_name: &str) -> (url: String)
    ensures
        url@ == url_of(base@, crate_name@),
{
    let mut url = String::from_str(base);
    url.append("/");
    url.append(crate_name);
    url
}

/// The characters of either side of a result.
pub open spec fn view_result(r: Result<String, String>) -> Result<Seq<char>, Seq<char>> {
    match r {
        Ok(s) => Ok(s@),
        Err(e) => Err(e@),
    }
}

/// The newest version that a reply carries, or the reason why it carries none.
pub open spec fn latest_of(crate_name: Seq<char>, reply: RegistryReply) -> Result<
    Seq<char>,
    Seq<char>,
> {
    match reply {
        RegistryReply::Unreachable(reason) => Err(
            "Something went wrong - Failed to send request to crate.io for "@ + crate_name + ": "@
                + reason@,
        ),
        RegistryReply::Answered { success, status, body } => if !success {
            Err("crates.io API request for "@ + crate_name + " failed with status: "@ + status@)
        } else {
            match body {
                Ok(answer) => Ok(answer.newest()),
                Err(reason) => Err(
                    "Failed to parse JSON response from crates.io for "@ + crate_name + ": "@
                        + reason@,
                ),
            }
        },
    }
}

/// Reads the newest version of a crate from the registry's reply. A request
/// that failed, a status that is no success and a body that is no answer
/// each give an error that names the crate.
pub fn get_latest_versions_from_crates_io(crate_name: &str, reply: &RegistryReply) -> (latest:
    Result<String, String>)
    ensures
        view_result(latest) == latest_of(crate_name@, *reply),
{
    match reply {
        RegistryReply::Unreachable(reason) => {
            let mut message = String::from_str(
                "Something went wrong - Failed to send request to crate.io for ",
            );
            message.append(crate_name);
            message.append(": ");
            message.append(reason.as_str());
            Err(message)
        },
        RegistryReply::Answered { success, status, body } => {
            if !*success {
                let mut message = String::from_str("crates.io API request for ");
                message.append(crate_name);
                message.append(" failed with status: ");
                message.append(status.as_str());
                Err(message)
            } else {
                match body {
                    Ok(answer) => Ok(String::from_str(answer.max_version())),
                    Err(reason) => {
                        let mut message = String::from_str(
                            "Failed to parse JSON response from crates.io for ",
                        );
                        message.append(crate_name);
                        message.append(": ");
                        message.append(reason.as_str());
                        Err(message)
                    },
                }
            }
        },
    }
}

/// Only a successful status with a readable body gives a version.
pub proof fn law_reply_without_answer_is_error(crate_name: Seq<char>, reply: RegistryReply)
    ensures
        latest_of(crate_name, reply) is Ok <==> (reply matches RegistryReply::Answered {
            success,
            status,
            body,
        } && success && body is Ok),
{
}

} // verus!
