//! The log that the user sees: the last lines, and no more.

use std::collections::VecDeque;
use std::sync::Arc;
use vstd::prelude::*;
use vstd::rwlock::{RwLock, RwLockPredicate};

verus! {

/// How many lines the shared log keeps.
pub const DEFAULT_MAX_LINES: usize = 1000;

/// Keeps the last lines that were pushed into it.
pub struct RingBuffer {
    buf: VecDeque<String>,
    max: usize,
}

/// The lines that remain when one more is pushed into a buffer of `max` lines:
/// the oldest leaves if the buffer holds exactly `max` of them.
pub open spec fn pushed(lines: Seq<Seq<char>>, max: nat, line: Seq<char>) -> Seq<Seq<char>> {
    if lines.len() == max && max > 0 {
        lines.drop_first().push(line)
    } else {
        lines.push(line)
    }
}

/// The last `n` items, or all of them if there are fewer.
pub open spec fn last_of<T>(items: Seq<T>, n: nat) -> Seq<T> {
    if n < items.len() {
        items.skip(items.len() - n)
    } else {
        items
    }
}

impl View for RingBuffer {
    type V = Seq<Seq<char>>;

    /// The lines, the oldest first.
    closed spec fn view(&self) -> Seq<Seq<char>> {
        self.buf@.map_values(|line: String| line@)
    }
}

impl RingBuffer {
    /// How many lines the buffer is made for.
    pub closed spec fn capacity(self) -> nat {
        self.max as nat
    }

    /// The buffer holds no more than it is made for. A buffer that is made for
    /// no line at all drops nothing, and only grows.
    pub open spec fn wf(self) -> bool {
        self.capacity() > 0 ==> self@.len() <= self.capacity()
    }

    pub fn new(max: usize) -> (buffer: Self)
        ensures
            buffer@ == Seq::<Seq<char>>::empty(),
            buffer.capacity() == max,
            buffer.wf(),
    {
        let buffer = RingBuffer { buf: VecDeque::new(), max };
        assert(buffer@ =~= seq![]);
        buffer
    }

    pub fn push(&mut self, line: String)
        ensures
            final(self)@ == pushed(old(self)@, old(self).capacity(), line@),
            final(self).capacity() == old(self).capacity(),
            old(self).wf() ==> final(self).wf(),
    {
        let ghost before = self@;
        if self.buf.len() == self.max {
            let _ = self.buf.pop_front();
        }
        self.buf.push_back(line);
        assert(self@ =~= pushed(before, self.capacity(), line@));
    }

    /// The last `n` lines.
    pub fn tail(&self, n: usize) -> (lines: Vec<&str>)
        ensures
            lines@.map_values(|line: &str| line@) == last_of(self@, n as nat),
    {
        let len: usize = self.buf.len();
        let start: usize = if n < len {
            len - n
        } else {
            0
        };
        let mut lines: Vec<&str> = Vec::new();
        let mut i: usize = start;
        while i < len
            invariant
                start <= i <= len,
                len == self.buf@.len(),
                lines@.len() == i - start,
                forall|k: int| 0 <= k < lines@.len() ==> (#[trigger] lines@[k])@ == self@[start + k],
            decreases len - i,
        {
            lines.push(self.buf[i].as_str());
            i = i + 1;
        }
        assert(lines@.map_values(|line: &str| line@) =~= last_of(self@, n as nat));
        lines
    }

    /// All lines.
    pub fn all(&self) -> (lines: Vec<&str>)
        ensures
            lines@.map_values(|line: &str| line@) == self@,
    {
        self.tail(self.buf.len())
    }
}

/// A buffer after many lines have been pushed into it.
pub open spec fn pushed_all(
    lines: Seq<Seq<char>>,
    max: nat,
    more: Seq<Seq<char>>,
) -> Seq<Seq<char>>
    decreases more.len(),
{
    if more.len() == 0 {
        lines
    } else {
        pushed(pushed_all(lines, max, more.drop_last()), max, more.last())
    }
}

/// Whatever is pushed into a buffer that is made for at least one line, it then
/// holds the last lines of all that it ever held, in their order.
pub proof fn law_keeps_the_last_lines(
    lines: Seq<Seq<char>>,
    max: nat,
    more: Seq<Seq<char>>,
)
    requires
        max > 0,
        lines.len() <= max,
    ensures
        pushed_all(lines, max, more) == last_of(lines + more, max),
    decreases more.len(),
{
    if more.len() == 0 {
        assert(lines + more =~= lines);
    } else {
        law_keeps_the_last_lines(lines, max, more.drop_last());
        assert(lines + more =~= (lines + more.drop_last()).push(more.last()));
        assert(pushed_all(lines, max, more) =~= last_of(lines + more, max));
    }
}

/// These lines are what is left of others after some more have been pushed.
pub open spec fn grown(start: Seq<Seq<char>>, max: nat, lines: Seq<Seq<char>>) -> bool {
    exists|more: Seq<Seq<char>>| lines == #[trigger] pushed_all(start, max, more)
}

/// What the shared log keeps in its lock: a buffer that had these lines at the
/// start and has had nothing but pushes since.
pub struct SharedLines {
    pub start: Seq<Seq<char>>,
}

impl RwLockPredicate<RingBuffer> for SharedLines {
    open spec fn inv(self, buffer: RingBuffer) -> bool {
        &&& buffer.wf()
        &&& buffer.capacity() == DEFAULT_MAX_LINES
        &&& grown(self.start, DEFAULT_MAX_LINES as nat, buffer@)
    }
}

/// A log that several threads push lines into and read. Between two calls of
/// one thread the others may push any number of lines, so a call says of the
/// lines only what holds in every case; what a push and a read do to the lines
/// that they find is what `RingBuffer::push` and `RingBuffer::tail` do.
pub struct SharedLog(Arc<RwLock<RingBuffer, SharedLines>>);

impl Clone for SharedLog {
    /// The same log once more.
    fn clone(&self) -> (log: Self)
        ensures
            log == *self,
    {
        SharedLog(self.0.clone())
    }
}

impl SharedLog {
    /// The lines that the log had when it was made.
    pub closed spec fn start(self) -> Seq<Seq<char>> {
        self.0.pred().start
    }

    /// A log without lines.
    pub fn new() -> (log: Self)
        ensures
            log.start() == Seq::<Seq<char>>::empty(),
    {
        let buffer = RingBuffer::new(DEFAULT_MAX_LINES);
        let ghost start = buffer@;
        assert(buffer@ == pushed_all(start, DEFAULT_MAX_LINES as nat, seq![]));
        SharedLog(Arc::new(RwLock::new(buffer, Ghost(SharedLines { start }))))
    }

    /// Pushes a line into the log.
    pub fn push(&self, line: String) {
        let (mut buffer, lock) = self.0.acquire_write();
        let ghost max = DEFAULT_MAX_LINES as nat;
        let ghost more = choose|more: Seq<Seq<char>>|
            buffer@ == #[trigger] pushed_all(self.start(), max, more);
        buffer.push(line);
        assert(more.push(line@).drop_last() =~= more);
        assert(buffer@ == pushed_all(self.start(), max, more.push(line@)));
        lock.release_write(buffer);
    }

    /// The last `n` lines of the moment. The log holds no more than it is made
    /// for, and what it holds has come from its first lines by pushes alone.
    pub fn tail(&self, n: usize) -> (lines: Vec<String>)
        ensures
            exists|found: Seq<Seq<char>>|
                found.len() <= DEFAULT_MAX_LINES && grown(
                    self.start(),
                    DEFAULT_MAX_LINES as nat,
                    found,
                ) && lines@.map_values(|line: String| line@) == #[trigger] last_of(found, n as nat),
    {
        let lock = self.0.acquire_read();
        let buffer = lock.borrow();
        let lines = owned(&buffer.tail(n));
        assert(lines@.map_values(|line: String| line@) == last_of(buffer@, n as nat));
        lock.release_read();
        lines
    }
}

/// A copy of each line.
fn owned(lines: &Vec<&str>) -> (copies: Vec<String>)
    ensures
        copies@.map_values(|line: String| line@) == lines@.map_values(|line: &str| line@),
{
    let mut copies: Vec<String> = Vec::new();
    let mut i: usize = 0;
    while i < lines.len()
        invariant
            i <= lines@.len(),
            copies@.len() == i,
            forall|k: int| 0 <= k < i ==> (#[trigger] copies@[k])@ == lines@[k]@,
        decreases lines@.len() - i,
    {
        copies.push(lines[i].to_owned());
        i = i + 1;
    }
    assert(copies@.map_values(|line: String| line@) =~= lines@.map_values(|line: &str| line@));
    copies
}

/// The last lines are as many as asked for, or all if there are fewer, and they
/// are those at the end, in their order.
pub proof fn law_last_of<T>(items: Seq<T>, n: nat, i: int)
    ensures
        last_of(items, n).len() == (if n < items.len() {
            n
        } else {
            items.len()
        }),
        0 <= i < last_of(items, n).len() ==> last_of(items, n)[i] == items[items.len() - last_of(
            items,
            n,
        ).len() + i],
{
}

/// A buffer that is made for no line at all keeps every line.
pub proof fn law_without_a_limit_everything_is_kept(lines: Seq<Seq<char>>, more: Seq<Seq<char>>)
    ensures
        pushed_all(lines, 0, more) == lines + more,
    decreases more.len(),
{
    if more.len() == 0 {
        assert(lines + more =~= lines);
    } else {
        law_without_a_limit_everything_is_kept(lines, more.drop_last());
        assert(lines + more =~= (lines + more.drop_last()).push(more.last()));
    }
}

/// A line that is pushed is the last one then, and only the oldest line may have
/// to leave for it.
pub proof fn law_pushed(lines: Seq<Seq<char>>, max: nat, line: Seq<char>)
    ensures
        pushed(lines, max, line).len() > 0,
        pushed(lines, max, line).last() == line,
        lines.len() == max && max > 0 ==> pushed(lines, max, line).drop_last() == lines.skip(1),
        !(lines.len() == max && max > 0) ==> pushed(lines, max, line).drop_last() == lines,
{
    assert(lines.push(line).drop_last() =~= lines);
    if lines.len() == max && max > 0 {
        assert(lines.drop_first() =~= lines.skip(1));
        assert(lines.drop_first().push(line).drop_last() =~= lines.skip(1));
    }
}

} // verus!
