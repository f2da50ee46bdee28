//! Finding the process of Notification Center.
//!
//! Its number changes whenever macOS restarts it, and its name differs between
//! macOS versions, so several names are tried.

use crate::text;
use crate::text::{chars_of, contains, lines, parse_i32, same, string_of, trim};
use crate::time::Span;
use vstd::prelude::*;
use vstd::string::*;

verus! {

/// How many names are tried.
pub const CANDIDATE_COUNT: usize = 4;

/// The names that are tried, most specific first: the path of the program in
/// its bundle, then names that other versions use.
pub open spec fn candidate_name(k: int) -> Seq<char> {
    if k == 0 {
        "/System/Library/CoreServices/NotificationCenter.app/Contents/MacOS/NotificationCenter"@
    } else if k == 1 {
        "NotificationCenter"@
    } else if k == 2 {
        "Notification Center"@
    } else {
        "usernoted"@
    }
}

fn candidate(k: usize) -> (r: &'static str)
    ensures
        r@ == candidate_name(k as int),
{
    if k == 0 {
        "/System/Library/CoreServices/NotificationCenter.app/Contents/MacOS/NotificationCenter"
    } else if k == 1 {
        "NotificationCenter"
    } else if k == 2 {
        "Notification Center"
    } else {
        "usernoted"
    }
}

// ---------------------------------------------------------------------------
// Words
// ---------------------------------------------------------------------------

/// Where the word at the start of a text ends.
pub open spec fn word_end(s: Seq<char>) -> int
    decreases s.len(),
{
    if s.len() == 0 || text::is_white_space(s[0]) {
        0
    } else {
        1 + word_end(s.drop_first())
    }
}

/// The first word of a text; nothing, where there is none.
pub open spec fn first_word(s: Seq<char>) -> Seq<char> {
    let t = text::trimmed_start(s);
    t.take(word_end(t))
}

/// What stands behind the first word.
pub open spec fn behind_first_word(s: Seq<char>) -> Seq<char> {
    let t = text::trimmed_start(s);
    t.skip(word_end(t))
}

proof fn lemma_word_end(s: Seq<char>, k: int)
    requires
        0 <= k <= s.len(),
        forall|i: int| 0 <= i < k ==> !text::is_white_space(s[i]),
        k < s.len() ==> text::is_white_space(s[k]),
    ensures
        word_end(s) == k,
    decreases s.len(),
{
    if k > 0 {
        let rest = s.drop_first();
        assert forall|i: int| 0 <= i < k - 1 implies !text::is_white_space(rest[i]) by {
            assert(rest[i] == s[i + 1]);
        }
        lemma_word_end(rest, k - 1);
    }
}

fn cut_word(s: &str) -> (r: (String, String))
    ensures
        r.0@ == first_word(s@),
        r.1@ == behind_first_word(s@),
{
    let t = text::trim_start(s);
    let chars = chars_of(t.as_str());
    let n: usize = chars.len();
    let mut i: usize = 0;
    while i < n && !chars[i].is_whitespace()
        invariant
            chars@ == t@,
            n == t@.len(),
            i <= n,
            forall|j: int| 0 <= j < i ==> !text::is_white_space(t@[j]),
        decreases n - i,
    {
        i = i + 1;
    }
    proof {
        lemma_word_end(t@, i as int);
    }
    let word = string_of(&chars, 0, i);
    let rest = string_of(&chars, i, n);
    assert(word@ =~= t@.take(i as int));
    assert(rest@ =~= t@.skip(i as int));
    (word, rest)
}

// ---------------------------------------------------------------------------
// Lines of the process list
// ---------------------------------------------------------------------------

/// The process that a line of `ps -axo pid=,comm=,command=` lists, unless it is
/// a system process or the asking process itself.
pub open spec fn line_pid(line: Seq<char>, own_pid: int) -> Option<int> {
    match text::parsed_i32(first_word(text::trimmed(line))) {
        Some(pid) => if pid > 1 && pid != own_pid {
            Some(pid)
        } else {
            None
        },
        None => None,
    }
}

/// Whether a line matches a name. The path in the bundle counts wherever it
/// stands; another name counts as the command or anywhere in the line, but not
/// in a line about this program.
pub open spec fn line_matches(line: Seq<char>, k: int) -> bool {
    let t = text::trimmed(line);
    let name = candidate_name(k);
    if k == 0 {
        text::occurs_in(name, t)
    } else {
        &&& first_word(behind_first_word(t)) == name || text::occurs_in(name, t)
        &&& !text::occurs_in("notification-forwarder"@, t)
    }
}

/// The process on the first line, from one on, that matches a name.
pub open spec fn pid_by_name(
    lines: Seq<Seq<char>>,
    k: int,
    own_pid: int,
    from: int,
) -> Option<int>
    decreases lines.len() - from,
{
    if from < 0 || from >= lines.len() {
        None
    } else if line_pid(lines[from], own_pid) is Some && line_matches(lines[from], k) {
        line_pid(lines[from], own_pid)
    } else {
        pid_by_name(lines, k, own_pid, from + 1)
    }
}

/// The process that the first matching name gives, from one name on.
pub open spec fn pid_by_names(lines: Seq<Seq<char>>, own_pid: int, from: int) -> Option<int>
    decreases CANDIDATE_COUNT - from,
{
    if from >= CANDIDATE_COUNT {
        None
    } else {
        match pid_by_name(lines, from, own_pid, 0) {
            Some(pid) => Some(pid),
            None => pid_by_names(lines, own_pid, from + 1),
        }
    }
}

/// The process of Notification Center in a process list.
pub open spec fn listed_pid(output: Seq<char>, own_pid: int) -> Option<int> {
    pid_by_names(text::line_seq(output), own_pid, 0)
}

fn read_pid(word: &str, own_pid: i32) -> (r: Option<i32>)
    ensures
        (match r {
            Some(pid) => Some(pid as int),
            None => None,
        }) == (match text::parsed_i32(word@) {
            Some(pid) => if pid > 1 && pid != own_pid {
                Some(pid)
            } else {
                None
            },
            None => None,
        }),
{
    match parse_i32(word) {
        Some(pid) => if pid > 1 && pid != own_pid {
            Some(pid)
        } else {
            None
        },
        None => None,
    }
}

fn find_by_name(list: &Vec<String>, k: usize, own_pid: i32) -> (r: Option<i32>)
    ensures
        (match r {
            Some(pid) => Some(pid as int),
            None => None,
        }) == pid_by_name(text::texts(list@), k as int, own_pid as int, 0),
{
    let ghost all = text::texts(list@);
    let name = candidate(k);
    let mut i: usize = 0;
    while i < list.len()
        invariant
            i <= list@.len(),
            all == text::texts(list@),
            name@ == candidate_name(k as int),
            pid_by_name(all, k as int, own_pid as int, 0) == pid_by_name(
                all,
                k as int,
                own_pid as int,
                i as int,
            ),
        decreases list@.len() - i,
    {
        assert(all[i as int] == list@[i as int]@);
        let line = trim(list[i].as_str());
        let (word, rest) = cut_word(line.as_str());
        if let Some(pid) = read_pid(word.as_str(), own_pid) {
            if k == 0 {
                if contains(line.as_str(), name) {
                    return Some(pid);
                }
            } else {
                let (comm, _) = cut_word(rest.as_str());
                if (same(comm.as_str(), name) || contains(line.as_str(), name)) && !contains(
                    line.as_str(),
                    "notification-forwarder",
                ) {
                    return Some(pid);
                }
            }
        }
        i = i + 1;
    }
    None
}

/// Finds the process of Notification Center in the output of
/// `ps -axo pid=,comm=,command=`, asked for by the process `own_pid`.
pub fn find_pid_in_ps_output(output: &str, own_pid: i32) -> (r: Option<i32>)
    ensures
        (match r {
            Some(pid) => Some(pid as int),
            None => None,
        }) == listed_pid(output@, own_pid as int),
{
    let list = lines(output);
    let mut k: usize = 0;
    while k < CANDIDATE_COUNT
        invariant
            k <= CANDIDATE_COUNT,
            text::texts(list@) == text::line_seq(output@),
            listed_pid(output@, own_pid as int) == pid_by_names(
                text::texts(list@),
                own_pid as int,
                k as int,
            ),
        decreases CANDIDATE_COUNT - k,
    {
        if let Some(pid) = find_by_name(&list, k, own_pid) {
            return Some(pid);
        }
        k = k + 1;
    }
    None
}

// ---------------------------------------------------------------------------
// Laws
// ---------------------------------------------------------------------------

proof fn lemma_pid_by_name(lines: Seq<Seq<char>>, k: int, own_pid: int, from: int)
    requires
        0 <= from,
    ensures
        match pid_by_name(lines, k, own_pid, from) {
            Some(pid) => exists|i: int|
                #![trigger lines[i]]
                from <= i < lines.len() && line_pid(lines[i], own_pid) == Some(pid) && line_matches(
                    lines[i],
                    k,
                ) && forall|j: int|
                    #![trigger lines[j]]
                    from <= j < i ==> !(line_pid(lines[j], own_pid) is Some && line_matches(
                        lines[j],
                        k,
                    )),
            None => forall|i: int|
                #![trigger lines[i]]
                from <= i < lines.len() ==> !(line_pid(lines[i], own_pid) is Some && line_matches(
                    lines[i],
                    k,
                )),
        },
    decreases lines.len() - from,
{
    if from < lines.len() {
        if line_pid(lines[from], own_pid) is Some && line_matches(lines[from], k) {
            assert(line_pid(lines[from], own_pid) == pid_by_name(lines, k, own_pid, from));
        } else {
            lemma_pid_by_name(lines, k, own_pid, from + 1);
            if let Some(pid) = pid_by_name(lines, k, own_pid, from) {
                let i = choose|i: int|
                    #![trigger lines[i]]
                    from + 1 <= i < lines.len() && line_pid(lines[i], own_pid) == Some(pid)
                        && line_matches(lines[i], k) && forall|j: int|
                        #![trigger lines[j]]
                        from + 1 <= j < i ==> !(line_pid(lines[j], own_pid) is Some
                            && line_matches(lines[j], k));
                assert(line_pid(lines[i], own_pid) == Some(pid));
            }
        }
    }
}

proof fn lemma_pid_by_names(lines: Seq<Seq<char>>, own_pid: int, from: int)
    requires
        0 <= from,
    ensures
        pid_by_names(lines, own_pid, from) matches Some(pid) ==> exists|k: int, i: int|
            #![trigger line_matches(lines[i], k)]
            from <= k < CANDIDATE_COUNT && 0 <= i < lines.len() && line_matches(lines[i], k)
                && line_pid(lines[i], own_pid) == Some(pid),
    decreases CANDIDATE_COUNT - from,
{
    if from < CANDIDATE_COUNT {
        lemma_pid_by_name(lines, from, own_pid, 0);
        if pid_by_name(lines, from, own_pid, 0) is None {
            lemma_pid_by_names(lines, own_pid, from + 1);
        }
    }
}

/// The asking process is never found, nor one of the system processes 0 and 1,
/// nor a negative number.
pub proof fn law_own_process_is_never_found(output: Seq<char>, own_pid: int)
    ensures
        listed_pid(output, own_pid) matches Some(pid) ==> pid != own_pid && pid > 1,
{
    lemma_pid_by_names(text::line_seq(output), own_pid, 0);
}

/// The path in the bundle is authoritative: a line that holds it is preferred
/// to every line that matches only another name, wherever the lines stand.
pub proof fn law_bundle_path_is_preferred(output: Seq<char>, own_pid: int, at: int)
    requires
        0 <= at < text::line_seq(output).len(),
        line_pid(text::line_seq(output)[at], own_pid) is Some,
        line_matches(text::line_seq(output)[at], 0),
        forall|j: int|
            #![trigger text::line_seq(output)[j]]
            0 <= j < at ==> !(line_pid(text::line_seq(output)[j], own_pid) is Some && line_matches(
                text::line_seq(output)[j],
                0,
            )),
    ensures
        listed_pid(output, own_pid) == line_pid(text::line_seq(output)[at], own_pid),
{
    let lines = text::line_seq(output);
    lemma_pid_by_name(lines, 0, own_pid, 0);
    assert(line_pid(lines[at], own_pid) is Some && line_matches(lines[at], 0));
}

// ---------------------------------------------------------------------------
// Waiting for the process
// ---------------------------------------------------------------------------

/// Milliseconds to wait after the first look that found nothing.
pub const FIRST_POLL_MS: u64 = 500;

/// The longest wait between two looks, in milliseconds.
pub const MAX_POLL_MS: u64 = 10_000;

/// Milliseconds to wait after a number of looks that found nothing: twice as
/// long each time, up to the longest wait.
pub open spec fn poll_ms(misses: nat) -> nat
    decreases misses,
{
    if misses == 0 {
        FIRST_POLL_MS as nat
    } else {
        let double = 2 * poll_ms((misses - 1) as nat);
        if double < MAX_POLL_MS {
            double
        } else {
            MAX_POLL_MS as nat
        }
    }
}

/// The waits between looks for a process that is not there yet.
pub struct Poll {
    delay_ms: u64,
    misses: Ghost<nat>,
}

impl Poll {
    #[verifier::type_invariant]
    spec fn valid(self) -> bool {
        &&& self.delay_ms == poll_ms(self.misses@)
        &&& self.delay_ms <= MAX_POLL_MS
    }

    /// How many looks have found nothing.
    pub closed spec fn misses(self) -> nat {
        self.misses@
    }

    /// No look has been taken yet.
    pub fn new() -> (r: Poll)
        ensures
            r.misses() == 0,
    {
        Poll { delay_ms: FIRST_POLL_MS, misses: Ghost(0nat) }
    }

    /// A look has found nothing: how long to wait for the next one.
    pub fn after_miss(&mut self) -> (r: Span)
        ensures
            r.nanos == poll_ms(old(self).misses()) * 1_000_000,
            final(self).misses() == old(self).misses() + 1,
    {
        proof {
            use_type_invariant(&*self);
        }
        let wait: u64 = self.delay_ms;
        let double: u64 = wait * 2;
        let next: u64 = if double < MAX_POLL_MS {
            double
        } else {
            MAX_POLL_MS
        };
        *self = Poll { delay_ms: next, misses: Ghost((self.misses@ + 1) as nat) };
        Span::from_millis(wait)
    }
}

/// The waits never get shorter, and none is longer than the longest wait.
pub proof fn law_polling_backs_off(misses: nat)
    ensures
        poll_ms(misses) <= poll_ms(misses + 1) <= MAX_POLL_MS,
        poll_ms(misses) >= FIRST_POLL_MS,
    decreases misses,
{
    if misses > 0 {
        law_polling_backs_off((misses - 1) as nat);
    }
}

/// The waits double from half a second on, up to ten seconds.
pub proof fn law_waits_double(misses: nat)
    ensures
        poll_ms(0) == 500,
        2 * poll_ms(misses) <= 10_000 ==> poll_ms(misses + 1) == 2 * poll_ms(misses),
        2 * poll_ms(misses) > 10_000 ==> poll_ms(misses + 1) == 10_000,
{
}

/// Whether a line names Notification Center by the name with this number: by
/// the path of the program in its bundle; by one of the other names, in a line
/// that is not about this program.
pub open spec fn names_center(line: Seq<char>, k: int) -> bool {
    let t = text::trimmed(line);
    let comm = first_word(behind_first_word(t));
    let own = text::occurs_in("notification-forwarder"@, t);
    ||| k == 0 && text::occurs_in(
        "/System/Library/CoreServices/NotificationCenter.app/Contents/MacOS/NotificationCenter"@,
        t,
    )
    ||| k == 1 && !own && (comm == "NotificationCenter"@ || text::occurs_in(
        "NotificationCenter"@,
        t,
    ))
    ||| k == 2 && !own && (comm == "Notification Center"@ || text::occurs_in(
        "Notification Center"@,
        t,
    ))
    ||| k == 3 && !own && (comm == "usernoted"@ || text::occurs_in("usernoted"@, t))
}

/// Whether a line is the one that a process is found by: it lists the process,
/// it has the name with this number, no line before it that lists a process has
/// that name, and no line at all that lists one has an earlier name.
pub open spec fn found_by(
    lines: Seq<Seq<char>>,
    own_pid: int,
    pid: int,
    k: int,
    i: int,
) -> bool {
    &&& 0 <= i < lines.len()
    &&& line_pid(lines[i], own_pid) == Some(pid)
    &&& names_center(lines[i], k)
    &&& forall|j: int|
        #![trigger lines[j]]
        0 <= j < i ==> !(line_pid(lines[j], own_pid) is Some && names_center(lines[j], k))
    &&& forall|j: int, e: int|
        #![trigger names_center(lines[j], e)]
        0 <= j < lines.len() && 0 <= e < k ==> !(line_pid(lines[j], own_pid) is Some
            && names_center(lines[j], e))
}

proof fn lemma_names_center(line: Seq<char>, k: int)
    requires
        0 <= k < CANDIDATE_COUNT,
    ensures
        line_matches(line, k) == names_center(line, k),
{
}

proof fn lemma_found_from_name(lines: Seq<Seq<char>>, own_pid: int, from: int)
    requires
        0 <= from <= CANDIDATE_COUNT,
        forall|j: int, e: int|
            #![trigger names_center(lines[j], e)]
            0 <= j < lines.len() && 0 <= e < from ==> !(line_pid(lines[j], own_pid) is Some
                && names_center(lines[j], e)),
    ensures
        match pid_by_names(lines, own_pid, from) {
            Some(pid) => exists|k: int, i: int|
                0 <= k < 4 && #[trigger] found_by(lines, own_pid, pid, k, i),
            None => forall|j: int, e: int|
                #![trigger names_center(lines[j], e)]
                0 <= j < lines.len() ==> !(line_pid(lines[j], own_pid) is Some && names_center(
                    lines[j],
                    e,
                )),
        },
    decreases CANDIDATE_COUNT - from,
{
    if from < CANDIDATE_COUNT {
        lemma_pid_by_name(lines, from, own_pid, 0);
        assert forall|j: int| #![trigger lines[j]] 0 <= j < lines.len() implies line_matches(
            lines[j],
            from,
        ) == names_center(lines[j], from) by {
            lemma_names_center(lines[j], from);
        }
        match pid_by_name(lines, from, own_pid, 0) {
            Some(pid) => {
                let i = choose|i: int|
                    #![trigger lines[i]]
                    0 <= i < lines.len() && line_pid(lines[i], own_pid) == Some(pid)
                        && line_matches(lines[i], from) && forall|j: int|
                        #![trigger lines[j]]
                        0 <= j < i ==> !(line_pid(lines[j], own_pid) is Some && line_matches(
                            lines[j],
                            from,
                        ));
                assert(found_by(lines, own_pid, pid, from, i));
            },
            None => {
                assert forall|j: int, e: int|
                    #![trigger names_center(lines[j], e)]
                    0 <= j < lines.len() && 0 <= e < from + 1 implies !(line_pid(
                    lines[j],
                    own_pid,
                ) is Some && names_center(lines[j], e)) by {
                    let _ = lines[j];
                }
                lemma_found_from_name(lines, own_pid, from + 1);
            },
        }
    }
}

/// The process that is found is the one on the first line with the most specific
/// name that any line has. None is found only where no line that lists a process
/// has any of the names.
pub proof fn law_most_specific_name_wins(output: Seq<char>, own_pid: int)
    ensures
        match listed_pid(output, own_pid) {
            Some(pid) => exists|k: int, i: int|
                0 <= k < 4 && #[trigger] found_by(text::line_seq(output), own_pid, pid, k, i),
            None => forall|j: int, e: int|
                #![trigger names_center(text::line_seq(output)[j], e)]
                0 <= j < text::line_seq(output).len() ==> !(line_pid(
                    text::line_seq(output)[j],
                    own_pid,
                ) is Some && names_center(text::line_seq(output)[j], e)),
        },
{
    lemma_found_from_name(text::line_seq(output), own_pid, 0);
}

/// The first word of a text ends at the first white space behind it.
pub proof fn law_words_end_at_white_space(
    before: Seq<char>,
    word: Seq<char>,
    behind: Seq<char>,
)
    requires
        text::blank(before),
        word.len() > 0,
        forall|i: int| 0 <= i < word.len() ==> !text::is_white_space(#[trigger] word[i]),
        behind.len() > 0 ==> text::is_white_space(behind[0]),
    ensures
        first_word(before + word + behind) == word,
        behind_first_word(before + word + behind) == behind,
{
    let t = word + behind;
    assert(before + word + behind =~= before + t);
    assert(t[0] == word[0]);
    text::law_trimming_the_start(before, t);
    assert forall|i: int| 0 <= i < word.len() implies !text::is_white_space(t[i]) by {
        assert(t[i] == word[i]);
    }
    if behind.len() > 0 {
        assert(t[word.len() as int] == behind[0]);
    }
    lemma_word_end(t, word.len() as int);
    assert(t.take(word.len() as int) =~= word);
    assert(t.skip(word.len() as int) =~= behind);
}

/// A line lists the process whose number it begins with, with white space before
/// the number or none, unless that is the asking process or a system process.
pub proof fn law_lines_list_the_number_in_front(
    before: Seq<char>,
    pid: i32,
    behind: Seq<char>,
    own_pid: int,
)
    requires
        text::blank(before),
        behind.len() > 0 ==> text::is_white_space(behind[0]),
    ensures
        line_pid(before + text::signed_decimal(pid as int) + behind, own_pid) == (if pid > 1 && pid
            != own_pid {
            Some(pid as int)
        } else {
            None
        }),
{
    let number = text::signed_decimal(pid as int);
    let size: nat = (if pid < 0 {
        -(pid as int)
    } else {
        pid as int
    }) as nat;
    text::law_decimals_write_the_number(size);
    text::law_written_numbers_are_read_back(pid);
    assert forall|i: int| 0 <= i < number.len() implies !text::is_white_space(
        #[trigger] number[i],
    ) by {
        if pid < 0 {
            if i > 0 {
                assert(number[i] == text::decimal(size)[i - 1]);
                assert('0' <= text::decimal(size)[i - 1] <= '9');
            }
        } else {
            assert('0' <= text::decimal(size)[i] <= '9');
        }
    }
    let s = number + behind;
    assert(before + number + behind =~= before + s);
    assert(s[0] == number[0]);
    assert(!text::is_white_space(number[0]));
    text::law_trimming_the_start(before, s);
    let hi = text::lemma_trimmed_end_parts(s);
    let n = number.len() as int;
    if hi < n {
        assert(s.skip(hi)[n - 1 - hi] == s[n - 1]);
        assert(s[n - 1] == number[n - 1]);
        assert(!text::is_white_space(number[n - 1]));
    }
    let rest = s.take(hi).skip(n);
    assert(s.take(hi) =~= Seq::<char>::empty() + number + rest);
    if rest.len() > 0 {
        assert(rest[0] == s[n]);
        assert(s[n] == behind[0]);
    }
    law_words_end_at_white_space(Seq::empty(), number, rest);
}

} // verus!
