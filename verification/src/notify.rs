//! Construction of notification requests.
//!
//! Delivery is a one-way side effect owned by the caller; this module
//! only builds the values handed to it: the title, message and sound of
//! a notification, and the AppleScript source that would display it,
//! with quotes and backslashes escaped.

use vstd::prelude::*;

verus! {

/// One notification request: a title, a message and an optional sound
/// name, ready for a delivery collaborator.
pub struct Notification {
    pub title: String,
    pub message: String,
    pub sound: Option<String>,
}

/// How one character appears inside an AppleScript string literal: a
/// backslash or a double quote gains a preceding backslash, any other
/// character stands as it is.
pub open spec fn escaped_char(c: char) -> Seq<char> {
    if c == '\\' || c == '"' {
        seq!['\\', c]
    } else {
        seq![c]
    }
}

/// `s` with every backslash and double quote escaped by a backslash.
pub open spec fn escape_spec(s: Seq<char>) -> Seq<char>
    decreases s.len(),
{
    if s.len() == 0 {
        Seq::empty()
    } else {
        escape_spec(s.drop_last()) + escaped_char(s.last())
    }
}

/// Escape `s` for inclusion in an AppleScript string literal.
pub fn escape_applescript(s: &str) -> (r: String)
    ensures
        r@ == escape_spec(s@),
{
    let n = s.unicode_len();
    let mut out = String::new();
    let mut i: usize = 0;
    proof {
        reveal_strlit("\\");
        assert(s@.take(0) =~= Seq::<char>::empty());
        assert(out@ =~= escape_spec(s@.take(0)));
    }
    while i < n
        invariant
            n == s@.len(),
            0 <= i <= n,
            out@ == escape_spec(s@.take(i as int)),
        decreases n - i,
    {
        let c = s.get_char(i);
        proof {
            reveal_strlit("\\");
            assert(s@.take(i as int + 1).drop_last() =~= s@.take(i as int));
            assert(s@.take(i as int + 1).last() == c);
            assert(s@.subrange(i as int, i as int + 1) =~= seq![c]);
        }
        if c == '\\' || c == '"' {
            out.append("\\");
        }
        out.append(s.substring_char(i, i + 1));
        proof {
            assert(out@ =~= escape_spec(s@.take(i as int + 1)));
        }
        i = i + 1;
    }
    proof {
        assert(s@.take(n as int) =~= s@);
    }
    out
}

/// The AppleScript source that displays a notification with the given
/// title, message and optional sound, message and title escaped.
pub open spec fn script_spec(title: Seq<char>, message: Seq<char>, sound: Option<Seq<char>>) -> Seq<
    char,
> {
    let base = "display notification \""@ + escape_spec(message) + "\" with title \""@
        + escape_spec(title) + "\""@;
    match sound {
        Some(name) => base + " sound name \""@ + name + "\""@,
        None => base,
    }
}

/// Build the AppleScript source that would display `n`.
pub fn notification_script(n: &Notification) -> (r: String)
    ensures
        n.sound matches Some(name) ==> r@ == script_spec(n.title@, n.message@, Some(name@)),
        n.sound is None ==> r@ == script_spec(n.title@, n.message@, None),
{
    let mut out = String::from_str("display notification \"");
    out.append(escape_applescript(n.message.as_str()).as_str());
    out.append("\" with title \"");
    out.append(escape_applescript(n.title.as_str()).as_str());
    out.append("\"");
    match &n.sound {
        Some(name) => {
            out.append(" sound name \"");
            out.append(name.as_str());
            out.append("\"");
            proof {
                assert(out@ =~= script_spec(n.title@, n.message@, Some(name@)));
            }
        },
        None => {
            proof {
                assert(out@ =~= script_spec(n.title@, n.message@, None));
            }
        },
    }
    out
}

/// The request announcing that an agent waits for input.
pub fn notify_needs_input(agent_name: &str, sound: &str) -> (r: Notification)
    ensures
        r.title@ == "swarm"@,
        r.message@ == agent_name@ + " needs input"@,
        r.sound matches Some(s) && s@ == sound@,
{
    let mut message = String::from_str(agent_name);
    message.append(" needs input");
    Notification {
        title: String::from_str("swarm"),
        message,
        sound: Some(String::from_str(sound)),
    }
}

/// The request announcing that an agent finished.
pub fn notify_done(agent_name: &str, sound: &str) -> (r: Notification)
    ensures
        r.title@ == "swarm"@,
        r.message@ == agent_name@ + " completed"@,
        r.sound matches Some(s) && s@ == sound@,
{
    let mut message = String::from_str(agent_name);
    message.append(" completed");
    Notification {
        title: String::from_str("swarm"),
        message,
        sound: Some(String::from_str(sound)),
    }
}

/// The request announcing that an agent failed with a message.
pub fn notify_error(agent_name: &str, message: &str, sound: &str) -> (r: Notification)
    ensures
        r.title@ == "swarm"@,
        r.message@ == agent_name@ + ": "@ + message@,
        r.sound matches Some(s) && s@ == sound@,
{
    let mut text = String::from_str(agent_name);
    text.append(": ");
    text.append(message);
    Notification {
        title: String::from_str("swarm"),
        message: text,
        sound: Some(String::from_str(sound)),
    }
}

} // verus!
