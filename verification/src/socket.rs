//! Requests on the control socket: group membership queries and changes,
//! and group broadcasts. The socket itself, the local store and the sending
//! are the program's; this module decides what each request does to the
//! model and what is answered.
use vstd::prelude::*;
use crate::msg::SocketReq;
use crate::store::{Model, set_map};
use crate::text::{concat, str_eq, views};

verus! {

broadcast use vstd::string::group_string_axioms;

/// What a request is answered.
#[derive(Debug, Clone)]
pub enum SocketReply {
    /// The request was refused, with the reason.
    Error(String),
    /// `handle` joined `group`.
    Joined { group: String, handle: String },
    /// `handle` left `group`.
    Left { group: String, handle: String },
    /// The members of `group`.
    Members { group: String, members: Vec<String> },
    /// `text` is to be sent to each of `handles`, the members of `group`.
    Broadcast { group: String, text: String, handles: Vec<String> },
}

/// A required text argument: present and not empty.
pub open spec fn arg(o: Option<String>) -> Option<Seq<char>> {
    match o {
        Some(s) => if s@.len() > 0 { Some(s@) } else { None },
        None => None,
    }
}

pub open spec fn is_error(r: SocketReply, text: Seq<char>) -> bool {
    r matches SocketReply::Error(e) && e@ == text
}

/// `r` is the answer to `req` on model `m`, and `m2` the model after it.
pub open spec fn socket_outcome(req: SocketReq, m: Model, r: SocketReply, m2: Model) -> bool {
    let cmd = req.cmd@;
    let groups = set_map(m.groups);
    if cmd == "group_join"@ {
        match (arg(req.name), arg(req.handle)) {
            (None, _) => is_error(r, "group_join requires \"name\""@) && m2 == m,
            (Some(_), None) => is_error(r, "group_join requires \"handle\""@) && m2 == m,
            (Some(n), Some(h)) =>
                if !m.directory.map().dom().contains(h) {
                    is_error(r, "unknown handle: "@ + h) && m2 == m
                } else {
                    &&& r matches SocketReply::Joined { group, handle } && group@ == n && handle@ == h
                    &&& set_map(m2.groups) == groups.insert(n, (if groups.dom().contains(n) { groups[n] } else { Set::empty() }).insert(h))
                    &&& m2 == (Model { groups: m2.groups, ..m })
                },
        }
    } else if cmd == "group_leave"@ {
        match (arg(req.name), arg(req.handle)) {
            (None, _) => is_error(r, "group_leave requires \"name\""@) && m2 == m,
            (Some(_), None) => is_error(r, "group_leave requires \"handle\""@) && m2 == m,
            (Some(n), Some(h)) =>
                if groups.dom().contains(n) && groups[n].contains(h) {
                    &&& r matches SocketReply::Left { group, handle } && group@ == n && handle@ == h
                    &&& set_map(m2.groups) == (if groups[n].remove(h).is_empty() { groups.remove(n) } else { groups.insert(n, groups[n].remove(h)) })
                    &&& m2 == (Model { groups: m2.groups, ..m })
                } else {
                    is_error(r, "handle "@ + h + " not in group "@ + n) && m2 == m
                },
        }
    } else if cmd == "group_members"@ {
        match arg(req.name) {
            None => is_error(r, "group_members requires \"name\""@) && m2 == m,
            Some(n) => m2 == m && if groups.dom().contains(n) {
                r matches SocketReply::Members { group, members } && group@ == n
                    && views(members@) == m.groups.map()[n].item_seq()
            } else {
                is_error(r, "group not found: "@ + n)
            },
        }
    } else if cmd == "broadcast"@ {
        match (arg(req.name), arg(req.message)) {
            (None, _) => is_error(r, "broadcast requires \"name\""@) && m2 == m,
            (Some(_), None) => is_error(r, "broadcast requires \"message\""@) && m2 == m,
            (Some(n), Some(msg)) => m2 == m && if groups.dom().contains(n) {
                r matches SocketReply::Broadcast { group, text, handles } && group@ == n
                    && text@ == "["@ + n + "] "@ + msg
                    && views(handles@) == m.groups.map()[n].item_seq()
            } else {
                is_error(r, "group not found: "@ + n)
            },
        }
    } else {
        is_error(r, "unknown cmd: "@ + cmd) && m2 == m
    }
}

/// A required text argument of a request.
fn required(o: &Option<String>) -> (r: Option<&String>)
    ensures
        match r {
            Some(s) => arg(*o) == Some(s@),
            None => arg(*o) is None,
        },
{
    match o {
        Some(s) => if !s.as_str().is_empty() { Some(s) } else { None },
        None => None,
    }
}

fn error(text: String) -> (r: SocketReply)
    ensures
        is_error(r, text@),
{
    SocketReply::Error(text)
}

/// Carries out a socket request on the model and says what to answer.
pub fn handle_socket_request(req: &SocketReq, model: &mut Model) -> (r: SocketReply)
    requires
        old(model).wf(),
    ensures
        final(model).wf(),
        socket_outcome(*req, *old(model), r, *final(model)),
{
    let cmd = req.cmd.as_str();
    if str_eq(cmd, "group_join") {
        let name = match required(&req.name) {
            Some(n) => n,
            None => return error("group_join requires \"name\"".to_owned()),
        };
        let handle = match required(&req.handle) {
            Some(h) => h,
            None => return error("group_join requires \"handle\"".to_owned()),
        };
        if !model.directory.contains_key(handle.as_str()) {
            return error(concat("unknown handle: ", handle.as_str()));
        }
        model.join_group(name.as_str(), handle.as_str());
        SocketReply::Joined { group: name.clone(), handle: handle.clone() }
    } else if str_eq(cmd, "group_leave") {
        let name = match required(&req.name) {
            Some(n) => n,
            None => return error("group_leave requires \"name\"".to_owned()),
        };
        let handle = match required(&req.handle) {
            Some(h) => h,
            None => return error("group_leave requires \"handle\"".to_owned()),
        };
        if model.in_group(name.as_str(), handle.as_str()) {
            model.leave_group(name.as_str(), handle.as_str());
            SocketReply::Left { group: name.clone(), handle: handle.clone() }
        } else {
            let t = concat(concat("handle ", handle.as_str()).as_str(), " not in group ");
            error(concat(t.as_str(), name.as_str()))
        }
    } else if str_eq(cmd, "group_members") {
        let name = match required(&req.name) {
            Some(n) => n,
            None => return error("group_members requires \"name\"".to_owned()),
        };
        match model.group_members(name.as_str()) {
            Some(members) => SocketReply::Members { group: name.clone(), members },
            None => error(concat("group not found: ", name.as_str())),
        }
    } else if str_eq(cmd, "broadcast") {
        let name = match required(&req.name) {
            Some(n) => n,
            None => return error("broadcast requires \"name\"".to_owned()),
        };
        let message = match required(&req.message) {
            Some(m) => m,
            None => return error("broadcast requires \"message\"".to_owned()),
        };
        match model.group_members(name.as_str()) {
            Some(handles) => {
                let t = concat(concat("[", name.as_str()).as_str(), "] ");
                SocketReply::Broadcast { group: name.clone(), text: concat(t.as_str(), message.as_str()), handles }
            },
            None => error(concat("group not found: ", name.as_str())),
        }
    } else {
        error(concat("unknown cmd: ", cmd))
    }
}

} // verus!
