//! Requester attribution: the decisions that turn what the operating system
//! reports about a client process and its ancestors into a short and a long
//! human description. The operating-system queries themselves are made by the
//! caller; this module chooses among their results and formats them.

use vstd::prelude::*;
use vstd::string::{StringExecFns, StringSliceAdditionalSpecFns};

use crate::agent::RequesterInfo;
use crate::utils::{contains_bytes, str_contains};

verus! {

/// The kernel object type index of a named section (a file mapping).
pub const SECTION_OBJECT_TYPE: u8 = 42;

/// The first visible window among `visible` (one flag per window of the
/// process, in enumeration order), else the first window, else none.
pub fn pick_primary_window(visible: &[bool]) -> (r: Option<usize>)
    ensures
        visible@.len() == 0 ==> r is None,
        (exists|i: int| 0 <= i < visible@.len() && visible@[i]) ==> (r matches Some(i) && i
            < visible@.len() && visible@[i as int] && forall|j: int| 0 <= j < i ==> !visible@[j]),
        visible@.len() > 0 && (forall|i: int| 0 <= i < visible@.len() ==> !visible@[i]) ==> r
            == Some(0usize),
{
    let mut i: usize = 0;
    while i < visible.len()
        invariant
            i <= visible@.len(),
            forall|j: int| 0 <= j < i ==> !visible@[j],
        decreases visible@.len() - i,
    {
        if visible[i] {
            return Some(i);
        }
        i = i + 1;
    }
    if visible.len() > 0 {
        Some(0)
    } else {
        None
    }
}

/// The process of the chain (from the client up its ancestors) whose
/// description stands for the request. Each entry tells whether the process
/// has a primary window and whether it is visible. The first entry with a
/// visible window is chosen; else the first with any window; else the
/// outermost process, the last of the chain.
pub fn choose_anchor(windows: &[Option<bool>]) -> (r: Option<usize>)
    ensures
        windows@.len() == 0 ==> r is None,
        windows@.len() > 0 ==> (r matches Some(i) && i < windows@.len()),
        (exists|i: int| 0 <= i < windows@.len() && windows@[i] == Some(true)) ==> (r matches Some(
            i,
        ) && windows@[i as int] == Some(true) && forall|j: int|
            0 <= j < i ==> windows@[j] != Some(true)),
        (forall|i: int| 0 <= i < windows@.len() ==> windows@[i] != Some(true)) && (exists|i: int|
            0 <= i < windows@.len() && windows@[i] is Some) ==> (r matches Some(i)
            && windows@[i as int] is Some && forall|j: int| 0 <= j < i ==> windows@[j] is None),
        windows@.len() > 0 && (forall|i: int| 0 <= i < windows@.len() ==> windows@[i] is None) ==> r
            == Some((windows@.len() - 1) as usize),
{
    let mut i: usize = 0;
    while i < windows.len()
        invariant
            i <= windows@.len(),
            forall|j: int| 0 <= j < i ==> windows@[j] != Some(true),
        decreases windows@.len() - i,
    {
        if windows[i] == Some(true) {
            return Some(i);
        }
        i = i + 1;
    }
    let mut k: usize = 0;
    while k < windows.len()
        invariant
            k <= windows@.len(),
            forall|j: int| 0 <= j < windows@.len() ==> windows@[j] != Some(true),
            forall|j: int| 0 <= j < k ==> windows@[j] is None,
        decreases windows@.len() - k,
    {
        if windows[k].is_some() {
            return Some(k);
        }
        k = k + 1;
    }
    if windows.len() > 0 {
        Some(windows.len() - 1)
    } else {
        None
    }
}

/// The character of a digit below 16, lower case.
pub open spec fn digit_char(d: nat) -> char {
    seq!['0', '1', '2', '3', '4', '5', '6', '7', '8', '9', 'a', 'b', 'c', 'd', 'e', 'f'][d as int]
}

/// `n` in decimal, without leading zeros.
pub open spec fn decimal(n: nat) -> Seq<char>
    decreases n,
{
    if n < 10 {
        seq![digit_char(n)]
    } else {
        decimal(n / 10).push(digit_char(n % 10))
    }
}

/// The four lower-case hexadecimal digits of `v`, zero-padded.
pub open spec fn hex4(v: nat) -> Seq<char> {
    seq![
        digit_char((v / 4096) % 16),
        digit_char((v / 256) % 16),
        digit_char((v / 16) % 16),
        digit_char(v % 16),
    ]
}

/// The separator between the parts of a short description.
pub open spec fn part_separator() -> Seq<char> {
    seq![' ', '-', ' ']
}

/// The separator after the process id and the short description in a long
/// description.
pub open spec fn field_separator() -> Seq<char> {
    seq![' ', ':', ' ']
}

/// The separator between the paragraphs of a long description.
pub open spec fn paragraph_separator() -> Seq<char> {
    seq!['\n', '\n']
}

/// The short description: the executable's file name, then its file
/// description, then the primary window's title when it is not empty.
pub open spec fn short_description(
    exe_name: Seq<char>,
    file_description: Option<Seq<char>>,
    window_title: Option<Seq<char>>,
) -> Seq<char> {
    let with_desc = match file_description {
        Some(d) => exe_name + part_separator() + d,
        None => exe_name,
    };
    match window_title {
        Some(t) => if t.len() > 0 {
            with_desc + part_separator() + t
        } else {
            with_desc
        },
        None => with_desc,
    }
}

/// The long description: the process id, the short description, then the
/// command line, or the executable's path when the command line is unknown.
pub open spec fn long_description(
    pid: u32,
    short: Seq<char>,
    exe_path: Seq<char>,
    command_line: Option<Seq<char>>,
) -> Seq<char> {
    let tail = match command_line {
        Some(c) => c,
        None => exe_path,
    };
    decimal(pid as nat) + field_separator() + short + field_separator() + tail
}

/// `parts` joined with `sep` between each two.
pub open spec fn joined(parts: Seq<Seq<char>>, sep: Seq<char>) -> Seq<char>
    decreases parts.len(),
{
    if parts.len() == 0 {
        Seq::empty()
    } else if parts.len() == 1 {
        parts[0]
    } else {
        joined(parts.drop_last(), sep) + sep + parts.last()
    }
}

/// The version-resource query for the file description in the translation
/// `language`: its low half is the language, its high half the code page.
pub open spec fn file_description_query_of(language: u32) -> Seq<char> {
    "\\StringFileInfo\\"@ + hex4((language % 0x10000) as nat) + hex4((language / 0x10000) as nat)
        + "\\FileDescription"@
}

/// A one-character string for a digit below 16.
fn digit_str(d: u32) -> (r: &'static str)
    requires
        d < 16,
    ensures
        r@ == seq![digit_char(d as nat)],
{
    proof {
        reveal_strlit("0");
        reveal_strlit("1");
        reveal_strlit("2");
        reveal_strlit("3");
        reveal_strlit("4");
        reveal_strlit("5");
        reveal_strlit("6");
        reveal_strlit("7");
        reveal_strlit("8");
        reveal_strlit("9");
        reveal_strlit("a");
        reveal_strlit("b");
        reveal_strlit("c");
        reveal_strlit("d");
        reveal_strlit("e");
        reveal_strlit("f");
    }
    let r = if d == 0 {
        "0"
    } else if d == 1 {
        "1"
    } else if d == 2 {
        "2"
    } else if d == 3 {
        "3"
    } else if d == 4 {
        "4"
    } else if d == 5 {
        "5"
    } else if d == 6 {
        "6"
    } else if d == 7 {
        "7"
    } else if d == 8 {
        "8"
    } else if d == 9 {
        "9"
    } else if d == 10 {
        "a"
    } else if d == 11 {
        "b"
    } else if d == 12 {
        "c"
    } else if d == 13 {
        "d"
    } else if d == 14 {
        "e"
    } else {
        "f"
    };
    assert(r@ =~= seq![digit_char(d as nat)]);
    r
}

/// Appends `n` in decimal.
fn push_decimal(s: &mut String, n: u32)
    ensures
        final(s)@ == old(s)@ + decimal(n as nat),
    decreases n,
{
    if n >= 10 {
        push_decimal(s, n / 10);
    }
    s.append(digit_str(n % 10));
    assert(final(s)@ =~= old(s)@ + decimal(n as nat));
}

/// Appends the four hexadecimal digits of `v`.
fn push_hex4(s: &mut String, v: u32)
    ensures
        final(s)@ == old(s)@ + hex4(v as nat),
{
    s.append(digit_str((v / 4096) % 16));
    s.append(digit_str((v / 256) % 16));
    s.append(digit_str((v / 16) % 16));
    s.append(digit_str(v % 16));
    assert(final(s)@ =~= old(s)@ + hex4(v as nat));
}

/// The version-resource query for the file description in the translation
/// `language`.
pub fn file_description_query(language: u32) -> (r: String)
    ensures
        r@ == file_description_query_of(language),
{
    let mut s = String::from_str("\\StringFileInfo\\");
    push_hex4(&mut s, language & 0xffff);
    push_hex4(&mut s, (language >> 16) & 0xffff);
    s.append("\\FileDescription");
    proof {
        assert(language & 0xffff == language % 0x10000) by (bit_vector);
        assert((language >> 16) & 0xffff == language / 0x10000) by (bit_vector);
    }
    assert(s@ =~= file_description_query_of(language));
    s
}

/// The short and the long description of one process.
pub fn describe_process(
    pid: u32,
    exe_name: &str,
    exe_path: &str,
    file_description: Option<&str>,
    window_title: Option<&str>,
    command_line: Option<&str>,
) -> (r: (String, String))
    ensures
        r.0@ == short_description(
            exe_name@,
            match file_description {
                Some(d) => Some(d@),
                None => None,
            },
            match window_title {
                Some(t) => Some(t@),
                None => None,
            },
        ),
        r.1@ == long_description(
            pid,
            r.0@,
            exe_path@,
            match command_line {
                Some(c) => Some(c@),
                None => None,
            },
        ),
{
    proof {
        reveal_strlit(" - ");
        reveal_strlit(" : ");
    }
    let mut short = String::from_str(exe_name);
    assert(" - "@ =~= part_separator());
    match file_description {
        Some(d) => {
            short.append(" - ");
            short.append(d);
        },
        None => {},
    }
    match window_title {
        Some(t) => if !t.is_empty() {
            short.append(" - ");
            short.append(t);
        },
        None => {},
    }
    let mut long = String::new();
    push_decimal(&mut long, pid);
    long.append(" : ");
    long.append(short.as_str());
    long.append(" : ");
    match command_line {
        Some(c) => long.append(c),
        None => long.append(exe_path),
    }
    assert(" - "@ =~= part_separator());
    assert(" : "@ =~= field_separator());
    assert(short@ =~= short_description(
        exe_name@,
        match file_description {
            Some(d) => Some(d@),
            None => None,
        },
        match window_title {
            Some(t) => Some(t@),
            None => None,
        },
    ));
    assert(long@ =~= long_description(
        pid,
        short@,
        exe_path@,
        match command_line {
            Some(c) => Some(c@),
            None => None,
        },
    ));
    (short, long)
}

/// The requester's description: the anchor's short description, and the long
/// descriptions of the chain as paragraphs.
pub fn compose_requester_info(short: String, longs: &[String]) -> (r: RequesterInfo)
    ensures
        r.description_short@ == short@,
        r.description_long@ == joined(longs@.map_values(|s: String| s@), paragraph_separator()),
{
    proof {
        reveal_strlit("\n\n");
    }
    let ghost parts = longs@.map_values(|s: String| s@);
    let mut long = String::new();
    let mut i: usize = 0;
    assert(parts.take(0) =~= Seq::<Seq<char>>::empty());
    while i < longs.len()
        invariant
            i <= longs@.len(),
            parts == longs@.map_values(|s: String| s@),
            long@ == joined(parts.take(i as int), paragraph_separator()),
        decreases longs@.len() - i,
    {
        proof {
            reveal_strlit("\n\n");
        }
        let ghost prefix = parts.take(i + 1);
        assert(prefix.drop_last() =~= parts.take(i as int));
        if i > 0 {
            long.append("\n\n");
        }
        long.append(longs[i].as_str());
        assert("\n\n"@ =~= paragraph_separator());
        assert(long@ =~= joined(prefix, paragraph_separator()));
        i = i + 1;
    }
    assert(parts.take(i as int) =~= parts);
    RequesterInfo { description_short: short, description_long: long }
}

/// Whether a handle of another process may name the mapping: it is a
/// section, owned by a process other than this one.
pub fn is_section_candidate(object_type: u8, owner_pid: u32, own_pid: u32) -> (r: bool)
    ensures
        r == (object_type == SECTION_OBJECT_TYPE && owner_pid != own_pid),
{
    object_type == SECTION_OBJECT_TYPE && owner_pid != own_pid
}

/// Whether a kernel object's name contains the name of the requested mapping.
pub fn names_mapping(object_name: &str, mapping_name: &str) -> (r: bool)
    ensures
        r == contains_bytes(object_name.spec_bytes(), mapping_name.spec_bytes()),
{
    str_contains(object_name, mapping_name)
}

} // verus!
