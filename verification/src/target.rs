//! Targets: the endpoints to check, and the lists that name them.
use vstd::prelude::*;
use vstd::string::*;
use crate::text;

verus! {

/// An endpoint to check.
#[derive(Debug)]
pub struct Target {
    pub host: String,
    pub port: u16,
}

/// A [`Target`] with its host as a sequence of characters.
pub struct TargetView {
    pub host: Seq<char>,
    pub port: u16,
}

impl View for Target {
    type V = TargetView;

    open spec fn view(&self) -> TargetView {
        TargetView { host: self.host@, port: self.port }
    }
}

impl Clone for Target {
    fn clone(&self) -> (r: Self)
        ensures
            r == *self,
    {
        Target { host: self.host.clone(), port: self.port }
    }
}

/// The port that a target without one is checked at.
pub const DEFAULT_PORT: u16 = 443;

impl TargetView {
    /// The target as `host:port`.
    pub open spec fn address(self) -> Seq<char> {
        self.host + ":"@ + text::decimal(self.port as nat)
    }
}

/// The target that a line of a target list names, if it names one: nothing on a blank line, on a
/// line that starts with `#`, and where what follows the last colon is not a port.
pub open spec fn target_of_line(line: Seq<char>) -> Option<TargetView> {
    let body = text::trim(line);
    if body.len() == 0 || body[0] == '#' {
        None
    } else {
        match text::last_index_of(body, ':') {
            Some(at) => match text::u16_value(body.skip(at + 1)) {
                Some(port) => Some(TargetView { host: body.take(at), port }),
                None => None,
            },
            None => Some(TargetView { host: body, port: DEFAULT_PORT }),
        }
    }
}

/// The text cut at its newlines.
pub open spec fn lines_of(list: Seq<char>) -> Seq<Seq<char>>
    decreases list.len(),
{
    if list.len() == 0 {
        seq![Seq::<char>::empty()]
    } else {
        let before = lines_of(list.drop_last());
        if list.last() == '\n' {
            before.push(Seq::<char>::empty())
        } else {
            before.drop_last().push(before.last().push(list.last()))
        }
    }
}

/// The targets that the lines name, in their order.
pub open spec fn targets_of_lines(lines: Seq<Seq<char>>) -> Seq<TargetView>
    decreases lines.len(),
{
    if lines.len() == 0 {
        Seq::empty()
    } else {
        let before = targets_of_lines(lines.drop_last());
        match target_of_line(lines.last()) {
            Some(target) => before.push(target),
            None => before,
        }
    }
}

/// The views of the targets.
pub open spec fn target_views(targets: Seq<Target>) -> Seq<TargetView> {
    targets.map_values(|t: Target| t@)
}

impl Target {
    /// The target as `host:port`.
    pub fn address(&self) -> (r: String)
        ensures
            r@ == self@.address(),
    {
        let mut out: String = self.host.clone();
        out.append(":");
        text::push_decimal(&mut out, self.port as u64);
        out
    }
}

/// Reads the range from `from` to `to` as one line of a target list.
fn parse_range(s: &Vec<char>, from: usize, to: usize) -> (r: Option<Target>)
    requires
        from <= to <= s@.len(),
    ensures
        target_of_line(s@.subrange(from as int, to as int)) == (match r {
            Some(target) => Some(target@),
            None => None,
        }),
{
    let (start, end) = text::trim_range(s, from, to);
    let ghost body = s@.subrange(start as int, end as int);
    if start == end || s[start] == '#' {
        return None;
    }
    match text::find_last(s, start, end, ':') {
        Some(at) => {
            assert(body.skip(at + 1) =~= s@.subrange(start + at + 1, end as int));
            match text::parse_u16(s, start + at + 1, end) {
                Some(port) => {
                    assert(body.take(at as int) =~= s@.subrange(start as int, start + at));
                    Some(Target { host: text::copy_range(s, start, start + at), port })
                },
                None => None,
            }
        },
        None => Some(Target { host: text::copy_range(s, start, end), port: DEFAULT_PORT }),
    }
}

/// Parses a `host:port` line. A host without a port gets [`DEFAULT_PORT`]; blank lines and lines
/// that start with `#` name no target.
pub fn parse_target(line: &str) -> (r: Option<Target>)
    ensures
        target_of_line(line@) == (match r {
            Some(target) => Some(target@),
            None => None,
        }),
{
    let chars: Vec<char> = text::to_chars(line);
    assert(chars@.subrange(0, chars@.len() as int) =~= line@);
    parse_range(&chars, 0, chars.len())
}

/// Parses a target list, one target per line.
pub fn parse_targets(list: &str) -> (r: Vec<Target>)
    ensures
        target_views(r@) == targets_of_lines(lines_of(list@)),
{
    let chars: Vec<char> = text::to_chars(list);
    let mut targets: Vec<Target> = Vec::new();
    let mut start: usize = 0;
    let mut i: usize = 0;
    assert(chars@.take(0) =~= Seq::<char>::empty());
    assert(lines_of(chars@.take(0)).drop_last() =~= Seq::<Seq<char>>::empty());
    assert(target_views(targets@) =~= Seq::<TargetView>::empty());
    while i < chars.len()
        invariant
            chars@ == list@,
            start <= i <= chars@.len(),
            lines_of(chars@.take(i as int)).len() > 0,
            lines_of(chars@.take(i as int)).last() =~= chars@.subrange(start as int, i as int),
            target_views(targets@) == targets_of_lines(
                lines_of(chars@.take(i as int)).drop_last(),
            ),
        decreases chars@.len() - i,
    {
        let ghost lines = lines_of(chars@.take(i as int));
        let ghost found = targets@;
        assert(chars@.take(i + 1).drop_last() =~= chars@.take(i as int));
        if chars[i] == '\n' {
            assert(lines_of(chars@.take(i + 1)).drop_last() =~= lines);
            match parse_range(&chars, start, i) {
                Some(target) => {
                    targets.push(target);
                    assert(target_views(targets@) =~= target_views(found).push(target@));
                },
                None => {},
            }
            start = i + 1;
        } else {
            assert(lines_of(chars@.take(i + 1)).drop_last() =~= lines.drop_last());
        }
        i = i + 1;
    }
    assert(chars@.take(i as int) =~= list@);
    let ghost found = targets@;
    match parse_range(&chars, start, i) {
        Some(target) => {
            targets.push(target);
            assert(target_views(targets@) =~= target_views(found).push(target@));
        },
        None => {},
    }
    targets
}

/// A target is read back from the `host:port` form it is shown in, unless its host starts with
/// white space or with `#`.
pub proof fn law_address_round_trip(target: TargetView)
    requires
        target.host.len() > 0 ==> !text::white_space(target.host[0]) && target.host[0] != '#',
    ensures
        target_of_line(target.address()) == Some(target),
{
    reveal_strlit(":");
    let digits = text::decimal(target.port as nat);
    let line = target.address();
    let at = target.host.len() as int;
    text::law_decimal_round_trip(target.port as nat);
    assert(text::is_digit(digits.last()));
    assert(line[at] == ':');
    assert(line.last() == digits.last());
    assert(line[0] == (if at > 0 { target.host[0] } else { ':' }));
    assert(text::trim(line) == line);
    assert forall|i: int| at < i < line.len() implies #[trigger] line[i] != ':' by {
        assert(line[i] == digits[i - at - 1]);
        assert(text::is_digit(digits[i - at - 1]));
    }
    text::lemma_last_index_of(line, ':', at);
    assert(line.skip(at + 1) =~= digits);
    assert(line.take(at) =~= target.host);
}

/// A host that stands alone on its line, without a colon, is checked at [`DEFAULT_PORT`].
pub proof fn law_bare_host(host: Seq<char>)
    requires
        host.len() > 0,
        host[0] != '#',
        !text::white_space(host[0]),
        !text::white_space(host.last()),
        !host.contains(':'),
    ensures
        target_of_line(host) == Some(TargetView { host, port: DEFAULT_PORT }),
{
    assert forall|i: int| -1 < i < host.len() implies #[trigger] host[i] != ':' by {}
    text::lemma_last_index_of(host, ':', -1);
}

/// A line that names no target (a blank one, a comment) changes nothing in a target list,
/// wherever it stands.
pub proof fn law_ignored_line(before: Seq<Seq<char>>, line: Seq<char>, after: Seq<Seq<char>>)
    requires
        target_of_line(line) is None,
    ensures
        targets_of_lines(before.push(line) + after) == targets_of_lines(before + after),
    decreases after.len(),
{
    if after.len() == 0 {
        assert(before.push(line) + after =~= before.push(line));
        assert(before.push(line).drop_last() =~= before);
        assert(before + after =~= before);
    } else {
        law_ignored_line(before, line, after.drop_last());
        assert((before.push(line) + after).drop_last() =~= before.push(line) + after.drop_last());
        assert((before + after).drop_last() =~= before + after.drop_last());
    }
}

/// Lines of white space alone and lines that start with `#`, indented or not, name no target.
pub proof fn law_blank_and_comment_lines(line: Seq<char>)
    requires
        ({
            ||| forall|i: int| 0 <= i < line.len() ==> text::white_space(#[trigger] line[i])
            ||| exists|n: int|
                0 <= n < line.len() && #[trigger] line[n] == '#' && forall|i: int|
                    0 <= i < n ==> text::white_space(#[trigger] line[i])
        }),
    ensures
        target_of_line(line) is None,
{
    if forall|i: int| 0 <= i < line.len() ==> text::white_space(#[trigger] line[i]) {
        text::lemma_trim_start_skips(line, line.len() as int);
        assert(text::trim(line).len() == 0);
    } else {
        let n = choose|n: int|
            0 <= n < line.len() && #[trigger] line[n] == '#' && forall|i: int|
                0 <= i < n ==> text::white_space(#[trigger] line[i]);
        text::lemma_trim_start_skips(line, n);
        text::lemma_trim_end_keeps_first(line.skip(n));
    }
}

/// White space at the start of a line changes nothing.
pub proof fn law_leading_white_space_is_ignored(line: Seq<char>, c: char)
    requires
        text::white_space(c),
    ensures
        target_of_line(seq![c] + line) == target_of_line(line),
{
    assert((seq![c] + line).drop_first() =~= line);
}

/// White space at the end of a line, such as the first character of a `\r\n` line ending, changes
/// nothing.
pub proof fn law_trailing_white_space_is_ignored(line: Seq<char>, c: char)
    requires
        text::white_space(c),
    ensures
        target_of_line(line.push(c)) == target_of_line(line),
{
    text::lemma_trim_push_white_space(line, c);
}

/// Lines put together again, with newlines between them.
pub open spec fn joined_lines(lines: Seq<Seq<char>>) -> Seq<char>
    decreases lines.len(),
{
    if lines.len() == 0 {
        Seq::empty()
    } else if lines.len() == 1 {
        lines[0]
    } else {
        joined_lines(lines.drop_last()).push('\n') + lines.last()
    }
}

/// Cutting a text into lines loses nothing but the newlines between them.
pub proof fn law_lines_join_back(list: Seq<char>)
    ensures
        lines_of(list).len() > 0,
        joined_lines(lines_of(list)) == list,
        forall|i: int|
            0 <= i < lines_of(list).len() ==> !(#[trigger] lines_of(list)[i]).contains('\n'),
    decreases list.len(),
{
    let lines = lines_of(list);
    if list.len() == 0 {
        assert(joined_lines(lines) =~= list);
    } else {
        let before = lines_of(list.drop_last());
        let c = list.last();
        law_lines_join_back(list.drop_last());
        assert(list =~= list.drop_last().push(c));
        if c == '\n' {
            assert(lines.drop_last() =~= before);
            assert(joined_lines(lines) =~= list);
            assert forall|i: int| 0 <= i < lines.len() implies !(#[trigger] lines[i]).contains(
                '\n',
            ) by {
                if i < before.len() {
                    assert(lines[i] == before[i]);
                }
            }
        } else {
            let last = before.last().push(c);
            assert(lines.drop_last() =~= before.drop_last());
            assert(lines.last() == last);
            assert(joined_lines(lines) =~= list);
            assert forall|i: int| 0 <= i < lines.len() implies !(#[trigger] lines[i]).contains(
                '\n',
            ) by {
                if i < before.len() - 1 {
                    assert(lines[i] == before[i]);
                } else {
                    assert(!before[before.len() - 1].contains('\n'));
                    assert forall|j: int| 0 <= j < last.len() implies last[j] != '\n' by {
                        if j < before.last().len() {
                            assert(before.last()[j] == last[j]);
                            assert(before.last().contains(last[j]));
                        }
                    }
                }
            }
        }
    }
}

/// A target is shown as its host, a colon and its port in decimal.
pub proof fn law_address_shape(target: TargetView)
    ensures
        target.address() == target.host + seq![':'] + text::decimal(target.port as nat),
{
    reveal_strlit(":");
    assert(":"@ =~= seq![':']);
}

/// What follows the last colon of a line is the port, and what stands before it is the host. A
/// line whose port cannot be read names no target.
pub proof fn law_host_and_port(host: Seq<char>, port: Seq<char>)
    requires
        host.len() > 0 ==> !text::white_space(host[0]) && host[0] != '#',
        port.len() > 0 ==> !text::white_space(port.last()),
        !port.contains(':'),
    ensures
        target_of_line(host + seq![':'] + port) == (match text::u16_value(port) {
            Some(n) => Some(TargetView { host, port: n }),
            None => None,
        }),
{
    let line = host + seq![':'] + port;
    let at = host.len() as int;
    assert(line[at] == ':');
    assert(!text::white_space(':'));
    assert(line[0] == (if at > 0 { host[0] } else { ':' }));
    assert(line.last() == (if port.len() > 0 { port.last() } else { ':' }));
    assert(text::trim(line) == line);
    assert forall|i: int| at < i < line.len() implies #[trigger] line[i] != ':' by {
        assert(line[i] == port[i - at - 1]);
        assert(port.contains(port[i - at - 1]));
    }
    text::lemma_last_index_of(line, ':', at);
    assert(line.skip(at + 1) =~= port);
    assert(line.take(at) =~= host);
}

/// A host without a port is checked at port 443.
pub proof fn law_default_port(host: Seq<char>)
    requires
        host.len() > 0,
        host[0] != '#',
        !text::white_space(host[0]),
        !text::white_space(host.last()),
        !host.contains(':'),
    ensures
        target_of_line(host) == Some(TargetView { host, port: 443 }),
{
    law_bare_host(host);
}

/// The targets of a list are those of its parts, one after the other, and a single line adds the
/// target that it names, if it names one.
pub proof fn law_targets_of_parts(a: Seq<Seq<char>>, b: Seq<Seq<char>>, line: Seq<char>)
    ensures
        targets_of_lines(a + b) == targets_of_lines(a) + targets_of_lines(b),
        targets_of_lines(seq![line]) == (match target_of_line(line) {
            Some(target) => seq![target],
            None => Seq::<TargetView>::empty(),
        }),
    decreases b.len(),
{
    let none = Seq::<TargetView>::empty();
    assert(seq![line].drop_last() =~= Seq::<Seq<char>>::empty());
    assert(targets_of_lines(seq![line].drop_last()) =~= none);
    if target_of_line(line) is Some {
        assert(none.push(target_of_line(line)->Some_0) =~= seq![target_of_line(line)->Some_0]);
    }
    if b.len() == 0 {
        assert(a + b =~= a);
        assert(targets_of_lines(a) + targets_of_lines(b) =~= targets_of_lines(a));
    } else {
        law_targets_of_parts(a, b.drop_last(), line);
        assert((a + b).drop_last() =~= a + b.drop_last());
        assert((a + b).last() == b.last());
        assert(targets_of_lines(a + b) =~= targets_of_lines(a) + targets_of_lines(b));
    }
}

/// A list of targets is seen target by target, with the host and the port of each.
pub proof fn law_targets_are_seen(targets: Seq<Target>, i: int)
    requires
        0 <= i < targets.len(),
    ensures
        target_views(targets).len() == targets.len(),
        target_views(targets)[i].host == targets[i].host@,
        target_views(targets)[i].port == targets[i].port,
{
}

} // verus!
