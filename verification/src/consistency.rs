//! Comparing the outcomes of several executions of one program.
//!
//! Whatever way a program is executed, the count of retired instructions, the
//! final program counter and every byte of guest memory have to come out the same.

use vstd::prelude::*;
use vstd::string::*;
use crate::memory::GuestMemory;
use crate::text::{dec, hex, push_dec, push_hex};

verus! {

/// The outcome of one execution.
#[derive(Debug)]
pub struct ExecutionResult {
    pub instret: u64,
    pub pc: u32,
    pub memory: GuestMemory,
}

/// Two memories have the same address spaces, and each holds the same bytes in both.
pub open spec fn spec_memory_equal(left: GuestMemory, right: GuestMemory) -> bool {
    &&& left.mem@.len() == right.mem@.len()
    &&& forall|s: int| 0 <= s < left.mem@.len() ==> #[trigger] left.space(s) == right.space(s)
}

/// Two outcomes agree in instruction count, program counter and memory.
pub open spec fn spec_results_equal(left: ExecutionResult, right: ExecutionResult) -> bool {
    &&& left.instret == right.instret
    &&& left.pc == right.pc
    &&& spec_memory_equal(left.memory, right.memory)
}

/// Whether two regions hold the same bytes.
pub fn bytes_equal(left: &Vec<u8>, right: &Vec<u8>) -> (equal: bool)
    ensures
        equal == (left@ == right@),
{
    if left.len() != right.len() {
        return false;
    }
    let mut i: usize = 0;
    while i < left.len()
        invariant
            i <= left@.len(),
            left@.len() == right@.len(),
            forall|k: int| 0 <= k < i ==> left@[k] == right@[k],
        decreases left@.len() - i,
    {
        if left[i] != right[i] {
            return false;
        }
        i = i + 1;
    }
    assert(left@ =~= right@);
    true
}

impl ExecutionResult {
    /// Whether the memory of this outcome equals another memory, byte for byte
    /// in every address space.
    pub fn memory_equal(&self, other: &GuestMemory) -> (equal: bool)
        ensures
            equal == spec_memory_equal(self.memory, *other),
    {
        if self.memory.mem.len() != other.mem.len() {
            return false;
        }
        let mut s: usize = 0;
        while s < self.memory.mem.len()
            invariant
                s <= self.memory.mem@.len(),
                self.memory.mem@.len() == other.mem@.len(),
                forall|k: int| 0 <= k < s ==> #[trigger] self.memory.space(k) == other.space(k),
            decreases self.memory.mem@.len() - s,
        {
            if !bytes_equal(&self.memory.mem[s], &other.mem[s]) {
                assert(self.memory.space(s as int) != other.space(s as int));
                return false;
            }
            s = s + 1;
        }
        true
    }

    /// Whether two outcomes agree.
    pub fn equals(&self, other: &ExecutionResult) -> (equal: bool)
        ensures
            equal == spec_results_equal(*self, *other),
    {
        self.instret == other.instret && self.pc == other.pc && self.memory_equal(&other.memory)
    }
}

/// Whether all outcomes agree with the first one. The index of the first
/// outcome that differs is returned otherwise.
pub fn verify_results_equal(results: &[ExecutionResult]) -> (first_difference: Option<usize>)
    requires
        results@.len() >= 1,
    ensures
        match first_difference {
            None => forall|i: int|
                0 <= i < results@.len() ==> spec_results_equal(results@[0], #[trigger] results@[i]),
            Some(index) => {
                &&& 1 <= index < results@.len()
                &&& !spec_results_equal(results@[0], results@[index as int])
                &&& forall|i: int|
                    0 <= i < index ==> spec_results_equal(results@[0], #[trigger] results@[i])
            },
        },
{
    let mut i: usize = 1;
    while i < results.len()
        invariant
            1 <= i <= results@.len(),
            forall|k: int| 1 <= k < i ==> spec_results_equal(results@[0], #[trigger] results@[k]),
        decreases results@.len() - i,
    {
        if !results[0].equals(&results[i]) {
            return Some(i);
        }
        i = i + 1;
    }
    None
}

/// Agreement of outcomes is an equivalence: it is reflexive, symmetric and
/// transitive, so outcomes that all agree with the first agree with one another.
pub proof fn lemma_results_equal_is_equivalence(
    a: ExecutionResult,
    b: ExecutionResult,
    c: ExecutionResult,
)
    ensures
        spec_results_equal(a, a),
        spec_results_equal(a, b) ==> spec_results_equal(b, a),
        spec_results_equal(a, b) && spec_results_equal(b, c) ==> spec_results_equal(a, c),
{
    if spec_results_equal(a, b) {
        assert forall|s: int| 0 <= s < b.memory.mem@.len() implies #[trigger] b.memory.space(s)
            == a.memory.space(s) by {
            assert(a.memory.space(s) == b.memory.space(s));
        }
        if spec_results_equal(b, c) {
            assert forall|s: int| 0 <= s < a.memory.mem@.len() implies #[trigger] a.memory.space(
                s,
            ) == c.memory.space(s) by {
                assert(a.memory.space(s) == b.memory.space(s));
                assert(b.memory.space(s) == c.memory.space(s));
            }
        }
    }
}

/// The texts of a list of lines.
pub open spec fn lines_view(lines: Seq<String>) -> Seq<Seq<char>> {
    Seq::new(lines.len(), |i: int| lines[i]@)
}

/// A line that sets two numbers side by side, each with the name of its execution.
pub open spec fn pair_line(
    what: Seq<char>,
    left_name: Seq<char>,
    left: nat,
    right_name: Seq<char>,
    right: nat,
) -> Seq<char> {
    "  "@ + what + ": "@ + left_name + " = "@ + dec(left) + ", "@ + right_name + " = "@ + dec(right)
}

/// The start of a line about one address space.
pub open spec fn space_prefix(space: nat) -> Seq<char> {
    "  Address space "@ + dec(space)
}

/// The line for one byte that differs.
pub open spec fn byte_line(
    space: nat,
    offset: nat,
    left_name: Seq<char>,
    left: u8,
    right_name: Seq<char>,
    right: u8,
) -> Seq<char> {
    space_prefix(space) + " diff at offset "@ + dec(offset) + ": "@ + left_name + " = 0x"@ + hex(
        left as nat,
        2,
    ) + ", "@ + right_name + " = 0x"@ + hex(right as nat, 2)
}

/// The lines for the bytes that differ among the first `n` of two regions of one length.
pub open spec fn byte_lines_upto(
    left: Seq<u8>,
    right: Seq<u8>,
    space: nat,
    left_name: Seq<char>,
    right_name: Seq<char>,
    n: int,
) -> Seq<Seq<char>>
    decreases n,
{
    if n <= 0 {
        Seq::empty()
    } else if left[n - 1] != right[n - 1] {
        byte_lines_upto(left, right, space, left_name, right_name, n - 1).push(
            byte_line(space, (n - 1) as nat, left_name, left[n - 1], right_name, right[n - 1]),
        )
    } else {
        byte_lines_upto(left, right, space, left_name, right_name, n - 1)
    }
}

/// The lines for one address space: its two sizes where they differ, else a
/// line for every byte that differs, followed by their number if there is one.
pub open spec fn space_lines(
    left: Seq<u8>,
    right: Seq<u8>,
    space: nat,
    left_name: Seq<char>,
    right_name: Seq<char>,
) -> Seq<Seq<char>> {
    if left.len() != right.len() {
        seq![
            pair_line(space_prefix(space).skip(2) + " size"@, left_name, left.len(), right_name, right.len()),
        ]
    } else {
        let lines = byte_lines_upto(left, right, space, left_name, right_name, left.len() as int);
        if lines.len() > 0 {
            lines.push(space_prefix(space) + " has "@ + dec(lines.len()) + " total differences"@)
        } else {
            lines
        }
    }
}

/// The lines for the first `n` address spaces.
pub open spec fn memory_lines_upto(
    left: GuestMemory,
    right: GuestMemory,
    left_name: Seq<char>,
    right_name: Seq<char>,
    n: int,
) -> Seq<Seq<char>>
    decreases n,
{
    if n <= 0 {
        Seq::empty()
    } else {
        memory_lines_upto(left, right, left_name, right_name, n - 1) + space_lines(
            left.space(n - 1),
            right.space(n - 1),
            (n - 1) as nat,
            left_name,
            right_name,
        )
    }
}

/// The lines that say where two outcomes differ: the two instruction counts,
/// the two program counters, and for memory the number of address spaces and
/// then, for every address space that both have, its lines. Outcomes that
/// agree give no line.
pub open spec fn spec_describe_differences(
    left: ExecutionResult,
    right: ExecutionResult,
    left_name: Seq<char>,
    right_name: Seq<char>,
) -> Seq<Seq<char>> {
    let shared = if left.memory.mem@.len() <= right.memory.mem@.len() {
        left.memory.mem@.len()
    } else {
        right.memory.mem@.len()
    };
    (if left.instret != right.instret {
        seq![
            pair_line(
                "Instruction count"@,
                left_name,
                left.instret as nat,
                right_name,
                right.instret as nat,
            ),
        ]
    } else {
        Seq::empty()
    }) + (if left.pc != right.pc {
        seq![pair_line("Final PC"@, left_name, left.pc as nat, right_name, right.pc as nat)]
    } else {
        Seq::empty()
    }) + (if left.memory.mem@.len() != right.memory.mem@.len() {
        seq![
            pair_line(
                "Address spaces"@,
                left_name,
                left.memory.mem@.len(),
                right_name,
                right.memory.mem@.len(),
            ),
        ]
    } else {
        Seq::empty()
    }) + memory_lines_upto(left.memory, right.memory, left_name, right_name, shared as int)
}

/// The texts of a list with one more line are the texts of the list and the text of the line.
pub proof fn lemma_lines_view_push(lines: Seq<String>, line: String)
    ensures
        lines_view(lines.push(line)) == lines_view(lines).push(line@),
{
    assert(lines_view(lines.push(line)) =~= lines_view(lines).push(line@));
}

/// Writes a line that sets two numbers side by side.
fn pair_line_string(what: &str, left_name: &str, left: u64, right_name: &str, right: u64) -> (line:
    String)
    ensures
        line@ == pair_line(what@, left_name@, left as nat, right_name@, right as nat),
{
    let mut line = String::from_str("  ");
    line.append(what);
    line.append(": ");
    line.append(left_name);
    line.append(" = ");
    push_dec(&mut line, left);
    line.append(", ");
    line.append(right_name);
    line.append(" = ");
    push_dec(&mut line, right);
    assert(line@ =~= pair_line(what@, left_name@, left as nat, right_name@, right as nat));
    line
}

/// Writes the start of a line about one address space.
fn space_prefix_string(space: usize) -> (line: String)
    ensures
        line@ == space_prefix(space as nat),
{
    let mut line = String::from_str("  Address space ");
    push_dec(&mut line, space as u64);
    line
}

/// Appends the lines for one address space.
fn push_space_lines(
    report: &mut Vec<String>,
    left: &Vec<u8>,
    right: &Vec<u8>,
    space: usize,
    left_name: &str,
    right_name: &str,
)
    ensures
        lines_view(final(report)@) == lines_view(old(report)@) + space_lines(
            left@,
            right@,
            space as nat,
            left_name@,
            right_name@,
        ),
{
    let ghost before = lines_view(report@);
    if left.len() != right.len() {
        let mut what = String::from_str("Address space ");
        push_dec(&mut what, space as u64);
        what.append(" size");
        proof {
            reveal_strlit("  Address space ");
            reveal_strlit("Address space ");
            assert(what@ =~= space_prefix(space as nat).skip(2) + " size"@);
        }
        let line = pair_line_string(
            what.as_str(),
            left_name,
            left.len() as u64,
            right_name,
            right.len() as u64,
        );
        report.push(line);
        assert(lines_view(report@) =~= before + space_lines(
            left@,
            right@,
            space as nat,
            left_name@,
            right_name@,
        ));
        return ;
    }
    let mut count: usize = 0;
    let mut offset: usize = 0;
    assert(lines_view(report@) =~= before + byte_lines_upto(
        left@,
        right@,
        space as nat,
        left_name@,
        right_name@,
        0,
    ));
    while offset < left.len()
        invariant
            left@.len() == right@.len(),
            offset <= left@.len(),
            count <= offset,
            count == byte_lines_upto(
                left@,
                right@,
                space as nat,
                left_name@,
                right_name@,
                offset as int,
            ).len(),
            lines_view(report@) == before + byte_lines_upto(
                left@,
                right@,
                space as nat,
                left_name@,
                right_name@,
                offset as int,
            ),
        decreases left@.len() - offset,
    {
        if left[offset] != right[offset] {
            let mut line = space_prefix_string(space);
            line.append(" diff at offset ");
            push_dec(&mut line, offset as u64);
            line.append(": ");
            line.append(left_name);
            line.append(" = 0x");
            push_hex(&mut line, left[offset] as u64, 2);
            line.append(", ");
            line.append(right_name);
            line.append(" = 0x");
            push_hex(&mut line, right[offset] as u64, 2);
            assert(line@ =~= byte_line(
                space as nat,
                offset as nat,
                left_name@,
                left@[offset as int],
                right_name@,
                right@[offset as int],
            ));
            let ghost lines = report@;
            report.push(line);
            proof {
                lemma_lines_view_push(lines, line);
            }
            count = count + 1;
        }
        offset = offset + 1;
        assert(lines_view(report@) =~= before + byte_lines_upto(
            left@,
            right@,
            space as nat,
            left_name@,
            right_name@,
            offset as int,
        ));
    }
    if count > 0 {
        let mut line = space_prefix_string(space);
        line.append(" has ");
        push_dec(&mut line, count as u64);
        line.append(" total differences");
        assert(line@ =~= space_prefix(space as nat) + " has "@ + dec(count as nat)
            + " total differences"@);
        let ghost lines = report@;
        report.push(line);
        proof {
            lemma_lines_view_push(lines, line);
        }
    }
    assert(lines_view(report@) =~= before + space_lines(
        left@,
        right@,
        space as nat,
        left_name@,
        right_name@,
    ));
}

/// Says where two outcomes differ, one line per difference.
pub fn describe_differences(
    left: &ExecutionResult,
    right: &ExecutionResult,
    left_name: &str,
    right_name: &str,
) -> (report: Vec<String>)
    ensures
        lines_view(report@) == spec_describe_differences(*left, *right, left_name@, right_name@),
{
    let mut report: Vec<String> = Vec::new();
    if left.instret != right.instret {
        report.push(
            pair_line_string("Instruction count", left_name, left.instret, right_name, right.instret),
        );
    }
    if left.pc != right.pc {
        report.push(
            pair_line_string("Final PC", left_name, left.pc as u64, right_name, right.pc as u64),
        );
    }
    let left_spaces = left.memory.mem.len();
    let right_spaces = right.memory.mem.len();
    if left_spaces != right_spaces {
        report.push(
            pair_line_string(
                "Address spaces",
                left_name,
                left_spaces as u64,
                right_name,
                right_spaces as u64,
            ),
        );
    }
    let shared = if left_spaces <= right_spaces {
        left_spaces
    } else {
        right_spaces
    };
    let ghost head = lines_view(report@);
    let mut s: usize = 0;
    assert(lines_view(report@) =~= head + memory_lines_upto(
        left.memory,
        right.memory,
        left_name@,
        right_name@,
        0,
    ));
    while s < shared
        invariant
            s <= shared,
            shared <= left.memory.mem@.len(),
            shared <= right.memory.mem@.len(),
            lines_view(report@) == head + memory_lines_upto(
                left.memory,
                right.memory,
                left_name@,
                right_name@,
                s as int,
            ),
        decreases shared - s,
    {
        push_space_lines(
            &mut report,
            &left.memory.mem[s],
            &right.memory.mem[s],
            s,
            left_name,
            right_name,
        );
        s = s + 1;
        assert(lines_view(report@) =~= head + memory_lines_upto(
            left.memory,
            right.memory,
            left_name@,
            right_name@,
            s as int,
        ));
    }
    assert(lines_view(report@) =~= spec_describe_differences(
        *left,
        *right,
        left_name@,
        right_name@,
    ));
    report
}

/// Outcomes that agree differ nowhere: their report is empty.
pub proof fn lemma_equal_outcomes_have_no_report(
    left: ExecutionResult,
    right: ExecutionResult,
    left_name: Seq<char>,
    right_name: Seq<char>,
)
    requires
        spec_results_equal(left, right),
    ensures
        spec_describe_differences(left, right, left_name, right_name).len() == 0,
{
    lemma_equal_memory_has_no_lines(
        left.memory,
        right.memory,
        left_name,
        right_name,
        left.memory.mem@.len() as int,
    );
}

/// Address spaces that hold the same bytes give no line.
pub proof fn lemma_equal_memory_has_no_lines(
    left: GuestMemory,
    right: GuestMemory,
    left_name: Seq<char>,
    right_name: Seq<char>,
    n: int,
)
    requires
        0 <= n <= left.mem@.len(),
        spec_memory_equal(left, right),
    ensures
        memory_lines_upto(left, right, left_name, right_name, n).len() == 0,
    decreases n,
{
    if n > 0 {
        lemma_equal_memory_has_no_lines(left, right, left_name, right_name, n - 1);
        assert(left.space(n - 1) == right.space(n - 1));
        lemma_equal_bytes_have_no_lines(
            left.space(n - 1),
            (n - 1) as nat,
            left_name,
            right_name,
            left.space(n - 1).len() as int,
        );
    }
}

/// A region set against itself gives no line.
pub proof fn lemma_equal_bytes_have_no_lines(
    bytes: Seq<u8>,
    space: nat,
    left_name: Seq<char>,
    right_name: Seq<char>,
    n: int,
)
    ensures
        byte_lines_upto(bytes, bytes, space, left_name, right_name, n).len() == 0,
    decreases n,
{
    if n > 0 {
        lemma_equal_bytes_have_no_lines(bytes, space, left_name, right_name, n - 1);
    }
}

} // verus!
