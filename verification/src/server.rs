//! The description of one node of the cluster.

use vstd::prelude::*;
use crate::text::{parse_u64, parsed_u64, split_whitespace, texts, words};

verus! {

/// One node of the cluster: its id and the addresses on which it serves
/// the API and the replication traffic.
#[derive(Debug, Clone, PartialEq, Eq)]
pub struct Server {
    pub id: u64,
    pub addr_api: String,
    pub addr_raft: String,
}

/// The message for a node description that does not have three fields.
pub open spec fn wrong_field_count(text: Seq<char>) -> Seq<char> {
    "bad node spec: '"@ + text + "' (need 3 fields)"@
}

impl Server {
    /// Whether the id of a node description can be read: where the
    /// description has three fields, the first is a `u64` in decimal.
    pub open spec fn id_is_readable(text: Seq<char>) -> bool {
        words(text).len() == 3 ==> parsed_u64(words(text)[0]) is Some
    }

    /// What reading a node description gives: a node from three fields, a
    /// message otherwise.
    pub open spec fn reads_as(text: Seq<char>, parsed: Result<Server, String>) -> bool {
        match parsed {
            Ok(server) => {
                &&& words(text).len() == 3
                &&& parsed_u64(words(text)[0]) == Some(server.id)
                &&& server.addr_api@ == words(text)[1]
                &&& server.addr_raft@ == words(text)[2]
            },
            Err(message) => words(text).len() != 3 && message@ == wrong_field_count(text),
        }
    }

    /// Decides whether the id of a node description can be read.
    pub fn check_id(s: &str) -> (readable: bool)
        ensures
            readable == Server::id_is_readable(s@),
    {
        let parts = split_whitespace(s);
        assert(parts@.len() == words(s@).len());
        if parts.len() == 3 {
            assert(texts(parts@)[0] == parts@[0]@);
            parse_u64(parts[0].as_str()).is_some()
        } else {
            true
        }
    }

    /// Reads a node description: an id and two addresses, separated by
    /// white space. A description with more or fewer fields is refused.
    pub fn parse(s: &str) -> (parsed: Result<Server, String>)
        requires
            Server::id_is_readable(s@),
        ensures
            Server::reads_as(s@, parsed),
    {
        let mut parts = split_whitespace(s);
        assert(parts@.len() == words(s@).len());
        if parts.len() == 3 {
            assert(texts(parts@)[0] == parts@[0]@);
            assert(texts(parts@)[1] == parts@[1]@);
            assert(texts(parts@)[2] == parts@[2]@);
            let addr_raft = parts.pop().unwrap();
            let addr_api = parts.pop().unwrap();
            let id_text = parts.pop().unwrap();
            let id: u64 = parse_u64(id_text.as_str()).unwrap();
            Ok(Server { id, addr_api, addr_raft })
        } else {
            let mut message = String::from_str("bad node spec: '");
            message.append(s);
            message.append("' (need 3 fields)");
            Err(message)
        }
    }

    /// Reads a node description whose id may be unreadable: `None` where the
    /// description has three fields and the first is no `u64`.
    pub fn try_parse(s: &str) -> (parsed: Option<Result<Server, String>>)
        ensures
            match parsed {
                Some(outcome) => Server::id_is_readable(s@) && Server::reads_as(s@, outcome),
                None => !Server::id_is_readable(s@),
            },
    {
        if Server::check_id(s) {
            Some(Server::parse(s))
        } else {
            None
        }
    }
}

} // verus!
