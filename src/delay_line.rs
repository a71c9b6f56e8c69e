use vstd::prelude::*;

verus! {

/// Index of the cell `delay` samples behind `cursor` in a ring of `len`
/// cells, for `delay <= len` and `cursor < len`.
pub open spec fn read_index(cursor: nat, delay: nat, len: nat) -> nat {
    if cursor >= delay {
        (cursor - delay) as nat
    } else {
        (cursor + len - delay) as nat
    }
}

/// Position of the cursor after one step in a ring of `len` cells.
pub open spec fn next_cursor(cursor: nat, len: nat) -> nat {
    if cursor + 1 >= len {
        0
    } else {
        cursor + 1
    }
}

/// A delay length bounded to `bound`.
pub open spec fn bounded_delay(delay: nat, bound: nat) -> nat {
    if delay <= bound {
        delay
    } else {
        bound
    }
}

/// Bounding a delay length twice gives what bounding it once gives, and a
/// length already in range is kept.
pub proof fn lemma_delay_clamp_idempotent(delay: nat, bound: nat)
    ensures
        bounded_delay(bounded_delay(delay, bound), bound) == bounded_delay(delay, bound),
        delay <= bound ==> bounded_delay(delay, bound) == delay,
{
}

/// Abstract state of a delay line: its cells and its write cursor.
pub struct RingModel<T> {
    pub cells: Seq<T>,
    pub cursor: nat,
}

impl<T> RingModel<T> {
    /// The ring has at least one cell and its cursor addresses one of them.
    pub open spec fn wf(self) -> bool {
        self.cells.len() > 0 && self.cursor < self.cells.len()
    }

    /// The sample that a read `delay` samples behind the cursor observes.
    pub open spec fn delayed(self, delay: nat) -> T {
        self.cells[read_index(self.cursor, delay, self.cells.len()) as int]
    }

    /// Writes `x` at the cursor, then advances and wraps the cursor.
    pub open spec fn push(self, x: T) -> RingModel<T> {
        RingModel {
            cells: self.cells.update(self.cursor as int, x),
            cursor: next_cursor(self.cursor, self.cells.len()),
        }
    }

    /// Pushes every sample of `xs`, first to last.
    pub open spec fn push_all(self, xs: Seq<T>) -> RingModel<T>
        decreases xs.len(),
    {
        if xs.len() == 0 {
            self
        } else {
            self.push_all(xs.drop_last()).push(xs.last())
        }
    }
}

/// Pushing keeps the ring well formed and its length.
pub proof fn lemma_push_all_wf<T>(m: RingModel<T>, xs: Seq<T>)
    requires
        m.wf(),
    ensures
        m.push_all(xs).wf(),
        m.push_all(xs).cells.len() == m.cells.len(),
    decreases xs.len(),
{
    if xs.len() > 0 {
        lemma_push_all_wf(m, xs.drop_last());
    }
}

/// After one push, a read `delay + 1` behind the cursor observes what a read
/// `delay` behind it observed before, and a read one behind it observes the
/// pushed sample.
pub proof fn lemma_push_shifts<T>(m: RingModel<T>, x: T, delay: nat)
    requires
        m.wf(),
        delay < m.cells.len(),
    ensures
        m.push(x).delayed(1) == x,
        delay >= 1 ==> m.push(x).delayed(delay + 1) == m.delayed(delay),
{
}

/// A delay line read `delay` samples behind the cursor, for `1 <= delay <= len`,
/// returns the sample pushed `delay` pushes ago: what comes out of the line is
/// what went in, shifted by the delay.
pub proof fn lemma_delayed_echo<T>(m: RingModel<T>, xs: Seq<T>, delay: nat)
    requires
        m.wf(),
        1 <= delay <= m.cells.len(),
        delay <= xs.len(),
    ensures
        m.push_all(xs).delayed(delay) == xs[xs.len() - delay],
    decreases xs.len(),
{
    let prefix = xs.drop_last();
    lemma_push_all_wf(m, prefix);
    lemma_push_shifts(m.push_all(prefix), xs.last(), (delay - 1) as nat);
    if delay > 1 {
        lemma_delayed_echo(m, prefix, (delay - 1) as nat);
    }
}

/// Fixed-length ring buffer with a write cursor, the storage of every
/// time-delay effect.
pub struct DelayLine<T> {
    buffer: Vec<T>,
    write_pos: usize,
}

impl<T: Copy> DelayLine<T> {
    /// The cells and the cursor of this line.
    pub closed spec fn view(&self) -> RingModel<T> {
        RingModel { cells: self.buffer@, cursor: self.write_pos as nat }
    }

    /// The cursor lies inside the buffer, which is never empty.
    pub open spec fn wf(&self) -> bool {
        self@.wf()
    }

    /// A line of `len` cells, each holding `fill`, with the cursor at 0.
    pub fn new(len: usize, fill: T) -> (r: DelayLine<T>)
        requires
            len > 0,
        ensures
            r.wf(),
            r@.cells == Seq::new(len as nat, |_i: int| fill),
            r@.cursor == 0,
    {
        let mut buffer: Vec<T> = Vec::with_capacity(len);
        let mut i: usize = 0;
        while i < len
            invariant
                i <= len,
                buffer@ == Seq::new(i as nat, |_i: int| fill),
            decreases len - i,
        {
            buffer.push(fill);
            i = i + 1;
        }
        DelayLine { buffer, write_pos: 0 }
    }

    /// Number of cells.
    pub fn len(&self) -> (r: usize)
        ensures
            r == self@.cells.len(),
    {
        self.buffer.len()
    }

    /// Position of the write cursor.
    pub fn write_pos(&self) -> (r: usize)
        ensures
            r == self@.cursor,
    {
        self.write_pos
    }

    /// Bounds a delay length to the line's length.
    pub fn clamp_delay(&self, delay: usize) -> (r: usize)
        ensures
            r == bounded_delay(delay as nat, self@.cells.len()),
    {
        if delay <= self.buffer.len() {
            delay
        } else {
            self.buffer.len()
        }
    }

    /// Bounds a delay length to one less than the line's length.
    pub fn clamp_delay_below_len(&self, delay: usize) -> (r: usize)
        requires
            self.wf(),
        ensures
            r == bounded_delay(delay as nat, (self@.cells.len() - 1) as nat),
    {
        if delay < self.buffer.len() {
            delay
        } else {
            self.buffer.len() - 1
        }
    }

    /// Index of the cell `delay` samples behind the cursor.
    pub fn read_position(&self, delay: usize) -> (r: usize)
        requires
            self.wf(),
            delay <= self@.cells.len(),
        ensures
            r == read_index(self@.cursor, delay as nat, self@.cells.len()),
            r < self@.cells.len(),
    {
        if self.write_pos >= delay {
            self.write_pos - delay
        } else {
            self.buffer.len() - (delay - self.write_pos)
        }
    }

    /// The sample `delay` samples behind the cursor, read before this
    /// step's write overwrites anything.
    pub fn read(&self, delay: usize) -> (r: T)
        requires
            self.wf(),
            delay <= self@.cells.len(),
        ensures
            r == self@.delayed(delay as nat),
    {
        let pos = self.read_position(delay);
        self.buffer[pos]
    }

    /// Writes `x` at the cursor, then advances and wraps the cursor.
    pub fn push(&mut self, x: T)
        requires
            old(self).wf(),
        ensures
            final(self).wf(),
            final(self)@ == old(self)@.push(x),
    {
        let pos = self.write_pos;
        self.buffer.set(pos, x);
        if pos >= self.buffer.len() - 1 {
            self.write_pos = 0;
        } else {
            self.write_pos = pos + 1;
        }
    }
}

} // verus!
