//! The texts of the connection form: SSH arguments and forwarded ports.

use crate::ssh_port_forward;
use crate::ssh_port_forward::{ForwardView, SshPortForwardOption};
use crate::text;
use vstd::prelude::*;

verus! {

/// The SSH arguments in a text, given what came of splitting it into words as a shell
/// does: an empty text has none, and a text that cannot be split is an error.
pub open spec fn ssh_args_in(raw: Seq<char>, words: Option<Seq<Seq<char>>>) -> Result<
    Seq<Seq<char>>,
    Seq<char>,
> {
    if text::is_blank(raw) {
        Ok(Seq::empty())
    } else {
        match words {
            Some(words) => Ok(words),
            None => Err("Invalid SSH args: unmatched quotes or escape sequence"@),
        }
    }
}

/// The words of a text that was split, if it could be.
pub open spec fn words_of(words: Option<Vec<String>>) -> Option<Seq<Seq<char>>> {
    match words {
        Some(words) => Some(text::texts(words@)),
        None => None,
    }
}

/// The SSH arguments in a text, given what came of splitting it into words as a shell
/// does.
pub fn parse_ssh_args(raw: &str, words: Option<Vec<String>>) -> (result: Result<Vec<String>, String>)
    ensures
        match (result, ssh_args_in(raw@, words_of(words))) {
            (Ok(args), Ok(expected)) => text::texts(args@) == expected,
            (Err(message), Err(expected)) => message@ == expected,
            _ => false,
        },
{
    if text::trim(raw).as_str().is_empty() {
        let none: Vec<String> = Vec::new();
        assert(text::texts(none@) =~= Seq::empty());
        return Ok(none);
    }
    match words {
        Some(words) => Ok(words),
        None => Err("Invalid SSH args: unmatched quotes or escape sequence".to_owned()),
    }
}

/// A port that a text denotes.
pub open spec fn port_in(part: Seq<char>) -> Option<u16> {
    match text::parsed_number(part, 0xffff) {
        Some(port) => Some(port as u16),
        None => None,
    }
}

/// A forwarded port, if both of its ports are ports.
pub open spec fn forward_with(
    whole: Seq<char>,
    local_host: Option<Seq<char>>,
    local_port: Seq<char>,
    remote_host: Seq<char>,
    remote_port: Seq<char>,
) -> Result<ForwardView, Seq<char>> {
    match (port_in(local_port), port_in(remote_port)) {
        (None, _) => Err("Invalid local port in '"@ + whole + "'"@),
        (_, None) => Err("Invalid remote port in '"@ + whole + "'"@),
        (Some(local_port), Some(remote_port)) => Ok(
            ForwardView {
                local_host,
                local_port,
                remote_host: Some(remote_host),
                remote_port,
            },
        ),
    }
}

/// What a text says of a forwarded port: `local:remote`, `local:host:remote`, or
/// `local_host:local:remote_host:remote`.
pub open spec fn parsed_forward(spec: Seq<char>) -> Result<ForwardView, Seq<char>> {
    let whole = text::trimmed(spec);
    let parts = text::split(whole, ':');
    if whole.len() == 0 {
        Err("Port forward spec cannot be empty"@)
    } else if parts.len() == 2 {
        forward_with(whole, None, parts[0], "localhost"@, parts[1])
    } else if parts.len() == 3 {
        forward_with(whole, None, parts[0], parts[1], parts[2])
    } else if parts.len() == 4 {
        forward_with(whole, Some(parts[0]), parts[1], parts[2], parts[3])
    } else {
        Err(
            "Invalid port forward '"@ + whole
                + "'. Use local:remote, local:host:remote, or local_host:local:remote_host:remote"@,
        )
    }
}

/// The outcome of reading a forwarded port, by contents.
pub open spec fn forward_result(result: Result<SshPortForwardOption, String>) -> Result<
    ForwardView,
    Seq<char>,
> {
    match result {
        Ok(forward) => Ok(forward@),
        Err(message) => Err(message@),
    }
}

fn build_forward(
    whole: &str,
    local_host: Option<String>,
    local_port: &str,
    remote_host: String,
    remote_port: &str,
) -> (result: Result<SshPortForwardOption, String>)
    ensures
        forward_result(result) == forward_with(
            whole@,
            text::optional(local_host),
            local_port@,
            remote_host@,
            remote_port@,
        ),
{
    let local_port: u16 = match text::parse_u16(local_port) {
        Some(port) => port,
        None => {
            let mut message = text::concat("Invalid local port in '", whole);
            message.append("'");
            return Err(message);
        },
    };
    let remote_port: u16 = match text::parse_u16(remote_port) {
        Some(port) => port,
        None => {
            let mut message = text::concat("Invalid remote port in '", whole);
            message.append("'");
            return Err(message);
        },
    };
    Ok(
        SshPortForwardOption {
            local_host,
            local_port,
            remote_host: Some(remote_host),
            remote_port,
        },
    )
}

/// What a text says of a forwarded port.
pub fn parse_port_forward_spec(spec: &str) -> (result: Result<SshPortForwardOption, String>)
    ensures
        forward_result(result) == parsed_forward(spec@),
{
    let whole = text::trim(spec);
    if whole.as_str().is_empty() {
        return Err("Port forward spec cannot be empty".to_owned());
    }
    let parts = text::split_on(whole.as_str(), ':');
    let ghost views = text::split(whole@, ':');
    assert(views.len() == parts@.len());
    if parts.len() == 2 {
        assert(views[0] == parts@[0]@ && views[1] == parts@[1]@);
        build_forward(
            whole.as_str(),
            None,
            parts[0].as_str(),
            "localhost".to_owned(),
            parts[1].as_str(),
        )
    } else if parts.len() == 3 {
        assert(views[0] == parts@[0]@ && views[1] == parts@[1]@ && views[2] == parts@[2]@);
        build_forward(
            whole.as_str(),
            None,
            parts[0].as_str(),
            parts[1].clone(),
            parts[2].as_str(),
        )
    } else if parts.len() == 4 {
        assert(views[0] == parts@[0]@ && views[1] == parts@[1]@ && views[2] == parts@[2]@
            && views[3] == parts@[3]@);
        build_forward(
            whole.as_str(),
            Some(parts[0].clone()),
            parts[1].as_str(),
            parts[2].clone(),
            parts[3].as_str(),
        )
    } else {
        let mut message = text::concat("Invalid port forward '", whole.as_str());
        message.append(
            "'. Use local:remote, local:host:remote, or local_host:local:remote_host:remote",
        );
        Err(message)
    }
}

/// What a list of texts says of forwarded ports: empty ones say nothing, and the first
/// that is wrong is the error.
pub open spec fn parsed_parts(parts: Seq<Seq<char>>) -> Result<Seq<ForwardView>, Seq<char>>
    decreases parts.len(),
{
    if parts.len() == 0 {
        Ok(Seq::empty())
    } else {
        match parsed_parts(parts.drop_last()) {
            Err(message) => Err(message),
            Ok(forwards) => {
                let part = text::trimmed(parts.last());
                if part.len() == 0 {
                    Ok(forwards)
                } else {
                    match parsed_forward(part) {
                        Err(message) => Err(message),
                        Ok(forward) => Ok(forwards.push(forward)),
                    }
                }
            },
        }
    }
}

/// What a text says of forwarded ports, separated by commas.
pub open spec fn parsed_forwards(raw: Seq<char>) -> Result<Seq<ForwardView>, Seq<char>> {
    parsed_parts(text::split(raw, ','))
}

/// The outcome of reading forwarded ports, by contents.
pub open spec fn forwards_result(result: Result<Vec<SshPortForwardOption>, String>) -> Result<
    Seq<ForwardView>,
    Seq<char>,
> {
    match result {
        Ok(forwards) => Ok(ssh_port_forward::forwards(forwards@)),
        Err(message) => Err(message@),
    }
}

proof fn lemma_first_error_stays(parts: Seq<Seq<char>>, n: int)
    requires
        0 <= n <= parts.len(),
        parsed_parts(parts.take(n)) is Err,
    ensures
        parsed_parts(parts) == parsed_parts(parts.take(n)),
    decreases parts.len() - n,
{
    if n < parts.len() {
        assert(parts.take(n + 1).drop_last() =~= parts.take(n));
        lemma_first_error_stays(parts, n + 1);
    } else {
        assert(parts.take(n) =~= parts);
    }
}

/// What a text says of forwarded ports, separated by commas.
pub fn parse_port_forwards(raw: &str) -> (result: Result<Vec<SshPortForwardOption>, String>)
    ensures
        forwards_result(result) == parsed_forwards(raw@),
{
    let parts = text::split_on(raw, ',');
    let ghost views = text::split(raw@, ',');
    let mut forwards: Vec<SshPortForwardOption> = Vec::new();
    let mut i: usize = 0;
    assert(views.take(0) =~= Seq::empty());
    assert(ssh_port_forward::forwards(forwards@) =~= Seq::empty());
    while i < parts.len()
        invariant
            views == text::texts(parts@),
            views == text::split(raw@, ','),
            i <= parts@.len(),
            parsed_parts(views.take(i as int)) == Ok::<Seq<ForwardView>, Seq<char>>(
                ssh_port_forward::forwards(forwards@),
            ),
        decreases parts@.len() - i,
    {
        let part = text::trim(parts[i].as_str());
        proof {
            assert(views[i as int] == parts@[i as int]@);
            assert(views.take(i + 1).drop_last() =~= views.take(i as int));
            assert(views.take(i + 1).last() == views[i as int]);
        }
        if !part.as_str().is_empty() {
            match parse_port_forward_spec(part.as_str()) {
                Ok(forward) => {
                    let ghost before = forwards@;
                    let ghost added = forward@;
                    forwards.push(forward);
                    assert(ssh_port_forward::forwards(forwards@)
                        =~= ssh_port_forward::forwards(before).push(added));
                },
                Err(message) => {
                    proof {
                        lemma_first_error_stays(views, i + 1);
                    }
                    return Err(message);
                },
            }
        }
        i = i + 1;
    }
    assert(views.take(views.len() as int) =~= views);
    Ok(forwards)
}

/// How a forwarded port is written.
pub open spec fn forward_text(forward: ForwardView) -> Seq<char> {
    let local_port = text::decimal(forward.local_port as nat);
    let remote_port = text::decimal(forward.remote_port as nat);
    match (forward.local_host, forward.remote_host) {
        (Some(local_host), Some(remote_host)) => local_host + ":"@ + local_port + ":"@
            + remote_host + ":"@ + remote_port,
        (None, Some(remote_host)) => local_port + ":"@ + remote_host + ":"@ + remote_port,
        (_, None) => local_port + ":"@ + remote_port,
    }
}

/// How forwarded ports are written.
pub open spec fn forwards_text(forwards: Seq<ForwardView>) -> Seq<char> {
    text::joined(forwards.map_values(|forward: ForwardView| forward_text(forward)), ", "@)
}

fn format_port_forward(forward: &SshPortForwardOption) -> (result: String)
    ensures
        result@ == forward_text(forward@),
{
    let mut result = match (&forward.local_host, &forward.remote_host) {
        (Some(local_host), Some(_)) => {
            let mut result = local_host.clone();
            result.append(":");
            result
        },
        _ => String::new(),
    };
    result.append(text::format_decimal(forward.local_port as u64).as_str());
    result.append(":");
    match &forward.remote_host {
        Some(remote_host) => {
            result.append(remote_host.as_str());
            result.append(":");
        },
        None => {},
    }
    result.append(text::format_decimal(forward.remote_port as u64).as_str());
    assert(result@ =~= forward_text(forward@));
    result
}

/// How forwarded ports are written.
pub fn format_port_forwards(forwards: &[SshPortForwardOption]) -> (result: String)
    ensures
        result@ == forwards_text(ssh_port_forward::forwards(forwards@)),
{
    let mut parts: Vec<String> = Vec::new();
    let ghost views = ssh_port_forward::forwards(forwards@).map_values(
        |forward: ForwardView| forward_text(forward),
    );
    let mut i: usize = 0;
    while i < forwards.len()
        invariant
            i <= forwards@.len(),
            views == ssh_port_forward::forwards(forwards@).map_values(
                |forward: ForwardView| forward_text(forward),
            ),
            text::texts(parts@) == views.take(i as int),
        decreases forwards@.len() - i,
    {
        let part = format_port_forward(&forwards[i]);
        let ghost before = parts@;
        let ghost added = part@;
        parts.push(part);
        assert(text::texts(parts@) =~= text::texts(before).push(added));
        assert(views.take(i + 1) =~= views.take(i as int).push(added));
        i = i + 1;
    }
    assert(views.take(views.len() as int) =~= views);
    text::join(parts.as_slice(), ", ")
}


/// Whether the hosts of a forwarded port can be written: they hold no separator, a local
/// host does not begin with white space, and the other host is told.
pub open spec fn is_writable(forward: ForwardView) -> bool {
    &&& forward.remote_host matches Some(host) && text::is_free_of(host, ':')
        && text::is_free_of(host, ',')
    &&& forward.local_host matches Some(host) ==> text::is_free_of(host, ':') && text::is_free_of(
        host,
        ',',
    ) && (host.len() > 0 ==> !text::is_white_space(host[0]))
}

proof fn lemma_free_concat(a: Seq<char>, b: Seq<char>, c: char)
    requires
        text::is_free_of(a, c),
        text::is_free_of(b, c),
    ensures
        text::is_free_of(a + b, c),
{
    assert forall|i: int| 0 <= i < (a + b).len() implies #[trigger] (a + b)[i] != c by {
        if i < a.len() {
            assert((a + b)[i] == a[i]);
        } else {
            assert((a + b)[i] == b[i - a.len()]);
        }
    }
}

/// A forwarded port that was written is read back, also with a space in front.
proof fn lemma_forward_reads_back(forward: ForwardView)
    requires
        is_writable(forward),
    ensures
        ({
            let written = forward_text(forward);
            &&& written.len() > 0
            &&& text::is_free_of(written, ',')
            &&& text::trimmed(written) == written
            &&& text::trimmed(seq![' '] + written) == written
            &&& parsed_forward(written) == Ok::<ForwardView, Seq<char>>(forward)
        }),
{
    let written = forward_text(forward);
    let local_port = text::decimal(forward.local_port as nat);
    let remote_port = text::decimal(forward.remote_port as nat);
    let remote_host = forward.remote_host->0;
    text::lemma_decimal_parses_back(forward.local_port as nat);
    text::lemma_decimal_parses_back(forward.remote_port as nat);
    reveal_strlit(":");
    assert(":"@ =~= seq![':']);
    let tail = local_port + ":"@ + remote_host + ":"@ + remote_port;
    text::lemma_split_single(local_port, ':');
    text::lemma_split_single(remote_host, ':');
    text::lemma_split_single(remote_port, ':');
    text::lemma_split_concat(local_port, ':', remote_host);
    text::lemma_split_concat(local_port + seq![':'] + remote_host, ':', remote_port);
    assert(tail =~= local_port + seq![':'] + remote_host + seq![':'] + remote_port);
    assert(text::split(tail, ':') =~= seq![local_port, remote_host, remote_port]);
    lemma_free_concat(local_port, ":"@, ',');
    lemma_free_concat(local_port + ":"@, remote_host, ',');
    lemma_free_concat(local_port + ":"@ + remote_host, ":"@, ',');
    lemma_free_concat(local_port + ":"@ + remote_host + ":"@, remote_port, ',');
    assert(tail.last() == remote_port.last());
    assert(text::is_digit(remote_port[remote_port.len() - 1]));
    match forward.local_host {
        Some(local_host) => {
            text::lemma_split_single(local_host, ':');
            text::lemma_split_concat(local_host, ':', tail);
            assert(written =~= local_host + seq![':'] + tail);
            assert(text::split(written, ':') =~= seq![
                local_host,
                local_port,
                remote_host,
                remote_port,
            ]);
            lemma_free_concat(local_host, ":"@, ',');
            lemma_free_concat(local_host + ":"@, tail, ',');
            assert(written.last() == tail.last());
            assert(written[0] == if local_host.len() > 0 {
                local_host[0]
            } else {
                ':'
            });
        },
        None => {
            assert(written == tail);
            assert(text::is_digit(local_port[0]));
            assert(written[0] == local_port[0]);
        },
    }
    text::lemma_trimmed_with_space(written);
}

/// What the parts say one after the other.
proof fn lemma_parsed_parts_push(parts: Seq<Seq<char>>, part: Seq<char>, forward: ForwardView)
    requires
        parsed_parts(parts) is Ok,
        text::trimmed(part).len() > 0,
        parsed_forward(text::trimmed(part)) == Ok::<ForwardView, Seq<char>>(forward),
    ensures
        parsed_parts(parts.push(part)) == Ok::<Seq<ForwardView>, Seq<char>>(
            parsed_parts(parts)->Ok_0.push(forward),
        ),
{
    assert(parts.push(part).drop_last() =~= parts);
}

/// Forwarded ports that were written are read back as they were.
pub proof fn law_forwards_read_back(forwards: Seq<ForwardView>)
    requires
        forall|i: int| 0 <= i < forwards.len() ==> is_writable(#[trigger] forwards[i]),
    ensures
        parsed_forwards(forwards_text(forwards)) == Ok::<Seq<ForwardView>, Seq<char>>(forwards),
    decreases forwards.len(),
{
    let written = forwards.map_values(|forward: ForwardView| forward_text(forward));
    reveal_strlit(", ");
    assert(", "@ =~= seq![',', ' ']);
    if forwards.len() == 0 {
        let raw = forwards_text(forwards);
        assert(raw =~= Seq::empty());
        let parts = text::split(raw, ',');
        assert(parts =~= seq![Seq::<char>::empty()]);
        assert(parts.drop_last() =~= Seq::empty());
        assert(text::trimmed(parts.last()) =~= Seq::empty());
        assert(parsed_parts(Seq::empty()) == Ok::<Seq<ForwardView>, Seq<char>>(Seq::empty()));
        assert(forwards =~= Seq::empty());
    } else {
        let last = forwards.last();
        let front = forwards.drop_last();
        let text_of_last = forward_text(last);
        assert(last == forwards[forwards.len() - 1]);
        lemma_forward_reads_back(last);
        assert forall|i: int| 0 <= i < front.len() implies is_writable(#[trigger] front[i]) by {
            assert(front[i] == forwards[i]);
        }
        law_forwards_read_back(front);
        assert(front.map_values(|forward: ForwardView| forward_text(forward))
            =~= written.drop_last());
        assert(written.last() == text_of_last);
        let raw = forwards_text(forwards);
        if forwards.len() == 1 {
            assert(raw == text_of_last);
            text::lemma_split_single(raw, ',');
            let none = Seq::<Seq<char>>::empty();
            assert(parsed_parts(none) == Ok::<Seq<ForwardView>, Seq<char>>(Seq::empty()));
            lemma_parsed_parts_push(none, text_of_last, last);
            assert(none.push(text_of_last) =~= seq![text_of_last]);
            assert(forwards =~= Seq::<ForwardView>::empty().push(last));
        } else {
            let before = forwards_text(front);
            let spaced = seq![' '] + text_of_last;
            assert(raw =~= before + seq![','] + spaced);
            text::lemma_split_concat(before, ',', spaced);
            assert forall|i: int| 0 <= i < spaced.len() implies #[trigger] spaced[i] != ',' by {
                if i > 0 {
                    assert(spaced[i] == text_of_last[i - 1]);
                }
            }
            text::lemma_split_single(spaced, ',');
            assert(text::split(raw, ',') =~= text::split(before, ',').push(spaced));
            lemma_parsed_parts_push(text::split(before, ','), spaced, last);
            assert(front.push(last) =~= forwards);
        }
    }
}

/// Two ports alone lead to the server itself; white space around them has no say.
pub proof fn law_two_ports_lead_to_the_server(local_port: u16, remote_port: u16)
    ensures
        parsed_forward(
            text::decimal(local_port as nat) + ":"@ + text::decimal(remote_port as nat),
        ) == Ok::<ForwardView, Seq<char>>(
            ForwardView {
                local_host: None,
                local_port,
                remote_host: Some("localhost"@),
                remote_port,
            },
        ),
{
    let first = text::decimal(local_port as nat);
    let second = text::decimal(remote_port as nat);
    let written = first + ":"@ + second;
    reveal_strlit(":");
    text::lemma_decimal_parses_back(local_port as nat);
    text::lemma_decimal_parses_back(remote_port as nat);
    assert(text::is_free_of(first, ':')) by {
        assert forall|i: int| 0 <= i < first.len() implies (#[trigger] first[i]) != ':' by {
            assert(text::is_digit(first[i]));
        }
    }
    assert(text::is_free_of(second, ':')) by {
        assert forall|i: int| 0 <= i < second.len() implies (#[trigger] second[i]) != ':' by {
            assert(text::is_digit(second[i]));
        }
    }
    text::lemma_split_single(first, ':');
    text::lemma_split_single(second, ':');
    text::lemma_split_concat(first, ':', second);
    assert(written =~= first + seq![':'] + second);
    assert(text::split(written, ':') =~= seq![first, second]);
    assert(written[0] == first[0] && text::is_digit(first[0]));
    assert(written.last() == second.last() && text::is_digit(second[second.len() - 1]));
    assert(text::trimmed(written) == written);
}

/// White space around a forwarded port has no say.
pub proof fn law_space_around_a_port_has_no_say(spec: Seq<char>)
    ensures
        parsed_forward(spec) == parsed_forward(text::trimmed(spec)),
{
    text::lemma_trimmed_twice(spec);
}

/// A text is read as a forwarded port exactly if it has two to four parts and those that stand
/// for ports are numbers that a port can have. Both ports are then those numbers, and hosts are
/// taken as they are written.
pub proof fn law_read_ports_are_the_written_ones(spec: Seq<char>)
    ensures
        ({
            let parts = text::split(text::trimmed(spec), ':');
            let local = if parts.len() == 4 {
                parts[1]
            } else {
                parts[0]
            };
            let read = parsed_forward(spec);
            &&& read is Ok <==> {
                &&& text::trimmed(spec).len() > 0
                &&& 2 <= parts.len() <= 4
                &&& text::parsed_number(local, 65535) is Some
                &&& text::parsed_number(parts.last(), 65535) is Some
            }
            &&& read is Ok ==> {
                &&& Some(read->Ok_0.local_port as nat) == text::parsed_number(local, 65535)
                &&& Some(read->Ok_0.remote_port as nat) == text::parsed_number(
                    parts.last(),
                    65535,
                )
                &&& read->Ok_0.local_host is Some <==> parts.len() == 4
                &&& parts.len() == 4 ==> read->Ok_0.local_host == Some(parts[0])
                &&& parts.len() >= 3 ==> read->Ok_0.remote_host == Some(parts[parts.len() - 2])
                &&& parts.len() == 2 ==> read->Ok_0.remote_host == Some("localhost"@)
            }
            &&& read is Err && text::trimmed(spec).len() > 0 ==> text::has_part(
                read->Err_0,
                text::trimmed(spec),
            )
        }),
{
    let whole = text::trimmed(spec);
    let parts = text::split(whole, ':');
    let read = parsed_forward(spec);
    text::lemma_split_nonempty(whole, ':');
    reveal_strlit("Invalid local port in '");
    reveal_strlit("Invalid remote port in '");
    reveal_strlit("Invalid port forward '");
    if read is Err && whole.len() > 0 {
        let message = read->Err_0;
        if message == "Invalid local port in '"@ + whole + "'"@ {
            assert(message.subrange(23, 23int + whole.len()) =~= whole);
            assert(text::stands_at(message, whole, 23));
        } else if message == "Invalid remote port in '"@ + whole + "'"@ {
            assert(message.subrange(24, 24int + whole.len()) =~= whole);
            assert(text::stands_at(message, whole, 24));
        } else {
            assert(message.subrange(22, 22int + whole.len()) =~= whole);
            assert(text::stands_at(message, whole, 22));
        }
    }
}

/// Lists of forwarded ports that are put one behind the other are read one after the other: the
/// first error of the first list counts, else the first error of the second. A blank part has no
/// say.
pub proof fn law_lists_of_ports_are_read_in_order(a: Seq<Seq<char>>, b: Seq<Seq<char>>)
    ensures
        parsed_parts(a + b) == if parsed_parts(a) is Err {
            parsed_parts(a)
        } else if parsed_parts(b) is Err {
            parsed_parts(b)
        } else {
            Ok::<Seq<ForwardView>, Seq<char>>(parsed_parts(a)->Ok_0 + parsed_parts(b)->Ok_0)
        },
        forall|part: Seq<char>|
            text::all_white(part) ==> #[trigger] parsed_parts(a.push(part)) == parsed_parts(a),
    decreases b.len(),
{
    assert forall|part: Seq<char>| text::all_white(part) implies #[trigger] parsed_parts(
        a.push(part),
    ) == parsed_parts(a) by {
        assert(a.push(part).drop_last() =~= a);
        text::law_trimming_takes_white_space_alone(part);
    }
    if b.len() == 0 {
        assert(a + b =~= a);
        if parsed_parts(a) is Ok {
            assert(parsed_parts(a)->Ok_0 + parsed_parts(b)->Ok_0 =~= parsed_parts(a)->Ok_0);
        }
    } else {
        law_lists_of_ports_are_read_in_order(a, b.drop_last());
        assert((a + b).drop_last() =~= a + b.drop_last());
        assert((a + b).last() == b.last());
        if parsed_parts(a) is Ok && parsed_parts(b) is Ok {
            let forward = parsed_forward(text::trimmed(b.last()));
            if text::trimmed(b.last()).len() > 0 {
                assert(parsed_parts(a)->Ok_0 + parsed_parts(b)->Ok_0 =~= (parsed_parts(a)->Ok_0
                    + parsed_parts(b.drop_last())->Ok_0).push(forward->Ok_0));
            }
        }
    }
}

/// A single part that is not blank is read as one forwarded port, or is the error.
pub proof fn law_single_port_is_read_alone(part: Seq<char>)
    requires
        text::trimmed(part).len() > 0,
    ensures
        parsed_parts(seq![part]) == match parsed_forward(part) {
            Ok(forward) => Ok::<Seq<ForwardView>, Seq<char>>(seq![forward]),
            Err(message) => Err(message),
        },
{
    let parts = seq![part];
    assert(parts.drop_last() =~= Seq::empty());
    text::lemma_trimmed_twice(part);
    assert(parsed_parts(parts.drop_last()) == Ok::<Seq<ForwardView>, Seq<char>>(Seq::empty()));
    match parsed_forward(part) {
        Ok(forward) => {
            assert(Seq::<ForwardView>::empty().push(forward) =~= seq![forward]);
        },
        Err(_) => {},
    }
}

/// Words that a text was split into are taken as they are; only a text that is not blank and
/// cannot be split is refused, and a blank one gives no arguments.
pub proof fn law_arguments_are_the_words(raw: Seq<char>, words: Option<Seq<Seq<char>>>)
    ensures
        ssh_args_in(raw, words) is Err <==> words is None && !text::all_white(raw),
        text::all_white(raw) ==> ssh_args_in(raw, words) == Ok::<Seq<Seq<char>>, Seq<char>>(
            Seq::empty(),
        ),
        words is Some && !text::all_white(raw) ==> ssh_args_in(raw, words) == Ok::<
            Seq<Seq<char>>,
            Seq<char>,
        >(words->0),
{
    text::law_trimming_takes_white_space_alone(raw);
}

} // verus!
