//! Rewriting of one command before it is sent to the store.
use vstd::prelude::*;
use vstd::string::*;

verus! {

/// The code point of `c` after ASCII lower-casing.
pub open spec fn folded(c: char) -> u32 {
    if 'A' <= c && c <= 'Z' {
        (c as u32 + 32) as u32
    } else {
        c as u32
    }
}

/// A text after ASCII lower-casing, as code points.
pub open spec fn folded_text(s: Seq<char>) -> Seq<u32> {
    s.map_values(|c: char| folded(c))
}

/// `s` equals `word` when ASCII case is ignored.
pub open spec fn same_ignoring_case(s: Seq<char>, word: Seq<char>) -> bool {
    folded_text(s) == folded_text(word)
}

/// A command as a sequence of texts.
pub open spec fn command_view(cmd: Seq<String>) -> Seq<Seq<char>> {
    cmd.map_values(|s: String| s@)
}

/// The command is `FUNCTION LOAD ...` with a script argument.
pub open spec fn is_function_load(cmd: Seq<Seq<char>>) -> bool {
    &&& cmd.len() >= 3
    &&& same_ignoring_case(cmd[0], "function"@)
    &&& same_ignoring_case(cmd[1], "load"@)
}

/// A shebang marker `#!` starts at position `i` of `s`.
pub open spec fn marker_at(s: Seq<char>, i: int) -> bool {
    0 <= i && i + 1 < s.len() && s[i] == '#' && s[i + 1] == '!'
}

/// The first position at or after `i` where a shebang marker starts.
pub open spec fn first_marker_from(s: Seq<char>, i: int) -> Option<int>
    decreases s.len() - i,
{
    if i < 0 || i + 1 >= s.len() {
        None
    } else if marker_at(s, i) {
        Some(i)
    } else {
        first_marker_from(s, i + 1)
    }
}

/// A script body cut so that it starts at its first shebang marker; unchanged without one.
pub open spec fn script_from_marker(s: Seq<char>) -> Seq<char> {
    match first_marker_from(s, 0) {
        Some(i) => s.subrange(i, s.len() as int),
        None => s,
    }
}

/// The length of a command name once a trailing `_ro`, else `ro`, is stripped (case ignored).
pub open spec fn base_len(name: Seq<char>) -> int {
    let n = name.len() as int;
    if n >= 3 && folded(name[n - 3]) == '_' as u32 && folded(name[n - 2]) == 'r' as u32
        && folded(name[n - 1]) == 'o' as u32 {
        n - 3
    } else if n >= 2 && folded(name[n - 2]) == 'r' as u32 && folded(name[n - 1]) == 'o' as u32 {
        n - 2
    } else {
        n
    }
}

/// The canonical name that a command name collapses onto, if its base is one of
/// `eval`, `evalsha`, `fcall`.
pub open spec fn canonical_name(name: Seq<char>) -> Option<Seq<char>> {
    let base = name.subrange(0, base_len(name));
    if same_ignoring_case(base, "eval"@) {
        Some("eval"@)
    } else if same_ignoring_case(base, "evalsha"@) {
        Some("evalsha"@)
    } else if same_ignoring_case(base, "fcall"@) {
        Some("fcall"@)
    } else {
        None
    }
}

/// The normalized form of a command.
pub open spec fn normalized(cmd: Seq<Seq<char>>) -> Seq<Seq<char>> {
    if cmd.len() == 0 {
        cmd
    } else {
        let with_script = if is_function_load(cmd) {
            cmd.update(cmd.len() - 1, script_from_marker(cmd.last()))
        } else {
            cmd
        };
        match canonical_name(cmd[0]) {
            Some(b) => with_script.update(0, b),
            None => with_script,
        }
    }
}

/// Normalization keeps the length of a command and every argument between the name and
/// the last one; the name changes only to `eval`, `evalsha` or `fcall`; the last
/// argument changes only for `FUNCTION LOAD`, and then only to a suffix of itself.
pub proof fn lemma_normalize_scope(cmd: Seq<Seq<char>>)
    ensures
        normalized(cmd).len() == cmd.len(),
        forall|i: int| 1 <= i < cmd.len() - 1 ==> #[trigger] normalized(cmd)[i] == cmd[i],
        cmd.len() > 0 && normalized(cmd)[0] != cmd[0] ==> normalized(cmd)[0] == "eval"@
            || normalized(cmd)[0] == "evalsha"@ || normalized(cmd)[0] == "fcall"@,
        cmd.len() > 1 && normalized(cmd).last() != cmd.last() ==> is_function_load(cmd) && exists|k: int|
            0 <= k <= cmd.last().len() && normalized(cmd).last() == #[trigger] cmd.last().subrange(k, cmd.last().len() as int),
{
    if cmd.len() > 1 && normalized(cmd).last() != cmd.last() {
        let k = first_marker_from(cmd.last(), 0)->0;
        lemma_first_marker_in_range(cmd.last(), 0);
        assert(normalized(cmd).last() == cmd.last().subrange(k, cmd.last().len() as int));
    }
}

proof fn lemma_first_marker_in_range(s: Seq<char>, i: int)
    ensures
        first_marker_from(s, i) matches Some(k) ==> i <= k && marker_at(s, k),
    decreases s.len() - i,
{
    if !(i < 0 || i + 1 >= s.len()) && !marker_at(s, i) {
        lemma_first_marker_in_range(s, i + 1);
    }
}

/// Whether `s[from..to]` equals `word` when ASCII case is ignored.
fn range_same_ignoring_case(s: &str, from: usize, to: usize, word: &str) -> (r: bool)
    requires
        from <= to <= s@.len(),
    ensures
        r == same_ignoring_case(s@.subrange(from as int, to as int), word@),
{
    let ghost sub = s@.subrange(from as int, to as int);
    let n = word.unicode_len();
    if to - from != n {
        proof {
            assert(folded_text(sub).len() != folded_text(word@).len());
        }
        return false;
    }
    let mut i: usize = 0;
    while i < n
        invariant
            n == word@.len(),
            to - from == n,
            from <= to <= s@.len(),
            sub == s@.subrange(from as int, to as int),
            0 <= i <= n,
            forall|j: int| 0 <= j < i ==> folded(sub[j]) == folded(word@[j]),
        decreases n - i,
    {
        let a = s.get_char(from + i);
        let b = word.get_char(i);
        let fa: u32 = if 'A' <= a && a <= 'Z' { a as u32 + 32 } else { a as u32 };
        let fb: u32 = if 'A' <= b && b <= 'Z' { b as u32 + 32 } else { b as u32 };
        if fa != fb {
            proof {
                assert(folded_text(sub)[i as int] != folded_text(word@)[i as int]);
            }
            return false;
        }
        i = i + 1;
    }
    proof {
        assert(folded_text(sub) =~= folded_text(word@));
    }
    true
}

/// The first position where a shebang marker starts in `s`.
fn find_marker(s: &str) -> (r: Option<usize>)
    ensures
        match r {
            Some(i) => first_marker_from(s@, 0) == Some(i as int),
            None => first_marker_from(s@, 0) is None,
        },
        r matches Some(i) ==> i + 1 < s@.len(),
{
    let n = s.unicode_len();
    let mut i: usize = 0;
    while i < n && n - i > 1
        invariant
            n == s@.len(),
            i <= n,
            first_marker_from(s@, 0) == first_marker_from(s@, i as int),
        decreases n - i,
    {
        if s.get_char(i) == '#' && s.get_char(i + 1) == '!' {
            return Some(i);
        }
        i = i + 1;
    }
    None
}

/// The base length of a command name, computed.
fn name_base_len(name: &str) -> (r: usize)
    ensures
        r as int == base_len(name@),
{
    let n = name.unicode_len();
    if n >= 3 && range_same_ignoring_case(name, n - 3, n, "_ro") {
        proof {
            reveal_strlit("_ro");
            let t = name@.subrange(n - 3, n as int);
            assert(folded_text(t)[0] == folded_text("_ro"@)[0]);
            assert(folded_text(t)[1] == folded_text("_ro"@)[1]);
            assert(folded_text(t)[2] == folded_text("_ro"@)[2]);
        }
        return n - 3;
    }
    if n >= 2 && range_same_ignoring_case(name, n - 2, n, "ro") {
        proof {
            reveal_strlit("_ro");
            reveal_strlit("ro");
            let t = name@.subrange(n - 2, n as int);
            assert(folded_text(t)[0] == folded_text("ro"@)[0]);
            assert(folded_text(t)[1] == folded_text("ro"@)[1]);
            if n >= 3 {
                let u = name@.subrange(n - 3, n as int);
                assert(!same_ignoring_case(u, "_ro"@));
                if folded(name@[n - 3]) == '_' as u32 {
                    assert(folded_text(u) =~= folded_text("_ro"@));
                }
            }
        }
        return n - 2;
    }
    proof {
        reveal_strlit("_ro");
        reveal_strlit("ro");
        if n >= 3 && folded(name@[n - 3]) == '_' as u32 && folded(name@[n - 2]) == 'r' as u32
            && folded(name@[n - 1]) == 'o' as u32 {
            assert(folded_text(name@.subrange(n - 3, n as int)) =~= folded_text("_ro"@));
        }
        if n >= 2 && folded(name@[n - 2]) == 'r' as u32 && folded(name@[n - 1]) == 'o' as u32 {
            assert(folded_text(name@.subrange(n - 2, n as int)) =~= folded_text("ro"@));
        }
    }
    n
}

/// The canonical name of a read-only variant, computed.
fn canonical_of(name: &str) -> (r: Option<String>)
    ensures
        match r {
            Some(b) => canonical_name(name@) == Some(b@),
            None => canonical_name(name@) is None,
        },
{
    let k = name_base_len(name);
    if range_same_ignoring_case(name, 0, k, "eval") {
        Some(String::from_str("eval"))
    } else if range_same_ignoring_case(name, 0, k, "evalsha") {
        Some(String::from_str("evalsha"))
    } else if range_same_ignoring_case(name, 0, k, "fcall") {
        Some(String::from_str("fcall"))
    } else {
        None
    }
}

/// Rewrites a command before dispatch: a `FUNCTION LOAD` script is cut to start at its
/// shebang marker, and the read-only variants of `eval`, `evalsha` and `fcall` collapse
/// onto their canonical names. Every other argument is left as it is.
pub fn normalize_command(cmd: &mut Vec<String>)
    ensures
        command_view(final(cmd)@) == normalized(command_view(old(cmd)@)),
{
    let ghost before = command_view(cmd@);
    if cmd.len() == 0 {
        return;
    }
    let n = cmd.len();
    if n >= 3 && range_same_ignoring_case(cmd[0].as_str(), 0, cmd[0].unicode_len(), "function")
        && range_same_ignoring_case(cmd[1].as_str(), 0, cmd[1].unicode_len(), "load") {
        proof {
            assert(cmd[0]@.subrange(0, cmd[0]@.len() as int) =~= cmd[0]@);
            assert(cmd[1]@.subrange(0, cmd[1]@.len() as int) =~= cmd[1]@);
        }
        let last = n - 1;
        match find_marker(cmd[last].as_str()) {
            Some(pos) => {
                let len = cmd[last].unicode_len();
                let cut = String::from_str(cmd[last].as_str().substring_char(pos, len));
                cmd.set(last, cut);
            },
            None => {},
        }
    } else {
        proof {
            if n >= 3 {
                assert(cmd[0]@.subrange(0, cmd[0]@.len() as int) =~= cmd[0]@);
                assert(cmd[1]@.subrange(0, cmd[1]@.len() as int) =~= cmd[1]@);
            }
        }
    }
    let ghost middle = command_view(cmd@);
    assert(middle[0] == before[0]);
    match canonical_of(cmd[0].as_str()) {
        Some(b) => {
            cmd.set(0, b);
        },
        None => {},
    }
    assert(command_view(cmd@) =~= normalized(before));
}

} // verus!
