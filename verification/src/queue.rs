use vstd::prelude::*;
use vstd::string::StrSliceExecFns;
use crate::message::{LogEntry, commands_of};

verus! {

/// The word that opens an enqueue command.
pub open spec fn enqueue_keyword() -> Seq<char> {
    seq!['E', 'N', 'Q', 'U', 'E', 'U', 'E']
}

/// The word that opens a dequeue command.
pub open spec fn dequeue_keyword() -> Seq<char> {
    seq!['D', 'E', 'Q', 'U', 'E', 'U', 'E']
}

/// The reply to a dequeue on an empty queue.
pub open spec fn queue_empty_reply() -> Seq<char> {
    seq!['Q', 'U', 'E', 'U', 'E', ' ', 'E', 'M', 'P', 'T', 'Y']
}

/// `p` is a prefix of `s`.
pub open spec fn has_prefix(s: Seq<char>, p: Seq<char>) -> bool {
    p.len() <= s.len() && s.subrange(0, p.len() as int) == p
}

/// The position of the first space in `s` at or after `from`, or `s.len()` if there is none.
pub open spec fn next_space(s: Seq<char>, from: int) -> int
    decreases s.len() - from,
{
    if from >= s.len() {
        s.len() as int
    } else if s[from] == ' ' {
        from
    } else {
        next_space(s, from + 1)
    }
}

/// The item that an enqueue command carries: the second of the fields that
/// single spaces separate.
pub open spec fn enqueue_item(cmd: Seq<char>) -> Seq<char> {
    let start = next_space(cmd, 0) + 1;
    cmd.subrange(start, next_space(cmd, start))
}

/// A command can be run: an enqueue command must have a second field.
pub open spec fn can_execute(cmd: Seq<char>) -> bool {
    has_prefix(cmd, enqueue_keyword()) ==> next_space(cmd, 0) < cmd.len()
}

/// What running `cmd` does to a queue holding `items` (front first), and what it answers.
pub open spec fn execute_spec(items: Seq<Seq<char>>, cmd: Seq<char>) -> (Seq<Seq<char>>, Seq<char>) {
    if has_prefix(cmd, enqueue_keyword()) {
        (items.push(enqueue_item(cmd)), Seq::empty())
    } else if has_prefix(cmd, dequeue_keyword()) {
        if items.len() == 0 {
            (items, queue_empty_reply())
        } else {
            (items.drop_first(), items[0])
        }
    } else {
        (items, Seq::empty())
    }
}

/// The queue after running `cmds` in order on a queue holding `items`.
pub open spec fn run_commands(items: Seq<Seq<char>>, cmds: Seq<Seq<char>>) -> Seq<Seq<char>>
    decreases cmds.len(),
{
    if cmds.len() == 0 {
        items
    } else {
        execute_spec(run_commands(items, cmds.drop_last()), cmds.last()).0
    }
}

/// Every command of `cmds` can be run.
pub open spec fn all_executable(cmds: Seq<Seq<char>>) -> bool {
    forall|i: int| 0 <= i < cmds.len() ==> #[trigger] can_execute(cmds[i])
}

/// The command that enqueues `item`.
pub open spec fn enqueue_command(item: Seq<char>) -> Seq<char> {
    enqueue_keyword() + seq![' '] + item
}

/// `s` holds no space.
pub open spec fn no_space(s: Seq<char>) -> bool {
    forall|i: int| 0 <= i < s.len() ==> s[i] != ' '
}

proof fn lemma_next_space_at(s: Seq<char>, from: int, to: int)
    requires
        0 <= from <= to <= s.len(),
        forall|j: int| from <= j < to ==> s[j] != ' ',
        to == s.len() || s[to] == ' ',
    ensures
        next_space(s, from) == to,
    decreases to - from,
{
    if from < to {
        lemma_next_space_at(s, from + 1, to);
    }
}

/// Running the command that enqueues an item without spaces appends exactly
/// that item and answers with nothing.
pub proof fn lemma_enqueue_command_appends(items: Seq<Seq<char>>, item: Seq<char>)
    requires
        no_space(item),
    ensures
        can_execute(enqueue_command(item)),
        execute_spec(items, enqueue_command(item)) == (items.push(item), Seq::<char>::empty()),
{
    let cmd = enqueue_command(item);
    assert(cmd.subrange(0, 7) =~= enqueue_keyword());
    lemma_next_space_at(cmd, 0, 7);
    lemma_next_space_at(cmd, 8, cmd.len() as int);
    assert(cmd.subrange(8, cmd.len() as int) =~= item);
}

/// Items leave in the order they came: after an item without spaces is
/// enqueued, a dequeue answers with the front item, which is the new item
/// exactly when the queue was empty.
pub proof fn lemma_fifo(items: Seq<Seq<char>>, item: Seq<char>)
    requires
        no_space(item),
    ensures
        ({
            let after_enqueue = execute_spec(items, enqueue_command(item)).0;
            let (after_dequeue, answer) = execute_spec(after_enqueue, dequeue_keyword());
            &&& items.len() == 0 ==> answer == item && after_dequeue == items
            &&& items.len() > 0 ==> answer == items[0] && after_dequeue == items.drop_first().push(item)
        }),
{
    lemma_enqueue_command_appends(items, item);
    assert(dequeue_keyword().subrange(0, 7) =~= dequeue_keyword());
    assert(dequeue_keyword().subrange(0, 7) != enqueue_keyword()) by {
        assert(dequeue_keyword().subrange(0, 7)[0] != enqueue_keyword()[0]);
    }
    if items.len() > 0 {
        assert(items.push(item).drop_first() =~= items.drop_first().push(item));
    }
    if items.len() == 0 {
        assert(items.push(item).drop_first() =~= items);
    }
}

/// Enqueueing items without spaces one after another, starting from an empty
/// queue, gives a queue holding exactly those items, in that order.
pub proof fn lemma_enqueues_build_queue(xs: Seq<Seq<char>>)
    requires
        forall|i: int| 0 <= i < xs.len() ==> #[trigger] no_space(xs[i]),
    ensures
        run_commands(Seq::empty(), Seq::new(xs.len(), |i: int| enqueue_command(xs[i]))) == xs,
    decreases xs.len(),
{
    let cmds = Seq::new(xs.len(), |i: int| enqueue_command(xs[i]));
    if xs.len() > 0 {
        let rest = xs.drop_last();
        assert forall|i: int| 0 <= i < rest.len() implies #[trigger] no_space(rest[i]) by {
            assert(no_space(xs[i]));
        }
        lemma_enqueues_build_queue(rest);
        assert(cmds.drop_last() =~= Seq::new(rest.len(), |i: int| enqueue_command(rest[i])));
        assert(no_space(xs[xs.len() - 1]));
        lemma_enqueue_command_appends(rest, xs.last());
        assert(rest.push(xs.last()) =~= xs);
    }
}

/// Whether `s` starts with `p`.
fn starts_with(s: &str, p: &str) -> (r: bool)
    ensures
        r == has_prefix(s@, p@),
{
    let n = s.unicode_len();
    let m = p.unicode_len();
    if m > n {
        return false;
    }
    let mut i: usize = 0;
    while i < m
        invariant
            n == s@.len(),
            m == p@.len(),
            m <= n,
            i <= m,
            forall|j: int| 0 <= j < i ==> s@[j] == p@[j],
        decreases m - i,
    {
        if s.get_char(i) != p.get_char(i) {
            assert(s@.subrange(0, m as int)[i as int] != p@[i as int]);
            return false;
        }
        i += 1;
    }
    assert(s@.subrange(0, m as int) =~= p@);
    true
}

/// The position of the first space in `s` at or after `from`, or its length.
fn find_space(s: &str, from: usize, n: usize) -> (r: usize)
    requires
        n == s@.len(),
        from <= n,
    ensures
        r == next_space(s@, from as int),
        from <= r <= n,
{
    let mut i = from;
    while i < n && s.get_char(i) != ' '
        invariant
            n == s@.len(),
            from <= i <= n,
            next_space(s@, i as int) == next_space(s@, from as int),
        decreases n - i,
    {
        i += 1;
    }
    i
}

/// Whether `cmd` can be run: an enqueue command must carry an item.
pub fn can_execute_command(cmd: &str) -> (r: bool)
    ensures
        r == can_execute(cmd@),
{
    proof {
        reveal_strlit("ENQUEUE");
        assert("ENQUEUE"@ =~= enqueue_keyword());
    }
    if starts_with(cmd, "ENQUEUE") {
        let n = cmd.unicode_len();
        find_space(cmd, 0, n) < n
    } else {
        true
    }
}

/// The queue that the replicated log drives. Items leave in the order they came.
pub struct Queue {
    pub queue: Vec<String>,
}

impl Queue {
    /// The items, front first.
    pub open spec fn view(&self) -> Seq<Seq<char>> {
        Seq::new(self.queue@.len(), |i: int| self.queue@[i]@)
    }

    /// An empty queue.
    pub fn new() -> (q: Self)
        ensures
            q@ == Seq::<Seq<char>>::empty(),
    {
        Queue { queue: Vec::new() }
    }

    fn enqueue(&mut self, item: String)
        ensures
            final(self)@ == old(self)@.push(item@),
    {
        self.queue.push(item);
        assert(self@ =~= old(self)@.push(item@));
    }

    fn dequeue(&mut self) -> (r: Option<String>)
        ensures
            old(self)@.len() == 0 ==> r is None && final(self)@ == old(self)@,
            old(self)@.len() > 0 ==> r is Some && r->0@ == old(self)@[0] && final(self)@ == old(self)@.drop_first(),
    {
        if self.queue.len() == 0 {
            None
        } else {
            let item = self.queue.remove(0);
            assert(self@ =~= old(self)@.drop_first());
            Some(item)
        }
    }

    /// The number of items.
    pub fn len(&self) -> (r: usize)
        ensures
            r == self@.len(),
    {
        self.queue.len()
    }

    /// Runs, in order, the command of each entry.
    pub fn build_from_log_entries(&mut self, log_entries: &Vec<LogEntry>)
        requires
            all_executable(commands_of(log_entries@)),
        ensures
            final(self)@ == run_commands(old(self)@, commands_of(log_entries@)),
    {
        let ghost cmds = commands_of(log_entries@);
        let mut i: usize = 0;
        while i < log_entries.len()
            invariant
                i <= log_entries.len(),
                cmds == commands_of(log_entries@),
                all_executable(cmds),
                self@ == run_commands(old(self)@, cmds.subrange(0, i as int)),
            decreases log_entries.len() - i,
        {
            let cmd: String = log_entries[i].command.clone();
            assert(can_execute(cmds[i as int]));
            self.execute(cmd);
            assert(cmds.subrange(0, i + 1).drop_last() =~= cmds.subrange(0, i as int));
            i += 1;
        }
        assert(cmds.subrange(0, log_entries.len() as int) =~= cmds);
    }

    /// The items, front first.
    pub fn peekall_log(&self) -> (r: Vec<String>)
        ensures
            r@ == self.queue@,
    {
        let mut result: Vec<String> = Vec::new();
        let mut i: usize = 0;
        while i < self.queue.len()
            invariant
                i <= self.queue.len(),
                result@ == self.queue@.subrange(0, i as int),
            decreases self.queue.len() - i,
        {
            result.push(self.queue[i].clone());
            i += 1;
        }
        result
    }

    /// The command that enqueues `item`.
    pub fn enqueue_log(item: &str) -> (r: String)
        ensures
            r@ == enqueue_keyword() + seq![' '] + item@,
    {
        let r = String::from_str("ENQUEUE ").concat(item);
        proof {
            reveal_strlit("ENQUEUE ");
            assert("ENQUEUE "@ =~= enqueue_keyword() + seq![' ']);
        }
        r
    }

    /// The command that dequeues an item.
    pub fn dequeue_log() -> (r: String)
        ensures
            r@ == dequeue_keyword(),
    {
        let r = String::from_str("DEQUEUE");
        proof {
            reveal_strlit("DEQUEUE");
            assert("DEQUEUE"@ =~= dequeue_keyword());
        }
        r
    }

    /// Runs one command: an enqueue appends its item and answers with nothing,
    /// a dequeue removes the front item and answers with it (or with
    /// `QUEUE EMPTY`), anything else changes nothing and answers with nothing.
    pub fn execute(&mut self, cmd: String) -> (result: String)
        requires
            can_execute(cmd@),
        ensures
            (final(self)@, result@) == execute_spec(old(self)@, cmd@),
    {
        proof {
            reveal_strlit("ENQUEUE");
            reveal_strlit("DEQUEUE");
            reveal_strlit("QUEUE EMPTY");
            assert("ENQUEUE"@ =~= enqueue_keyword());
            assert("DEQUEUE"@ =~= dequeue_keyword());
            assert("QUEUE EMPTY"@ =~= queue_empty_reply());
        }
        let mut result: String = String::new();
        let s: &str = cmd.as_str();
        if starts_with(s, "ENQUEUE") {
            let n = s.unicode_len();
            let first = find_space(s, 0, n);
            let second = find_space(s, first + 1, n);
            let item: String = s.substring_char(first + 1, second).to_owned();
            self.enqueue(item);
            result = String::new();
        } else if starts_with(s, "DEQUEUE") {
            let item: Option<String> = self.dequeue();
            match item {
                Some(item) => {
                    result = item;
                },
                None => {
                    result = String::from_str("QUEUE EMPTY");
                },
            }
        }
        result
    }
}

} // verus!
