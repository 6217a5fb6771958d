use vstd::prelude::*;
use vstd::string::StringExecFns;

verus! {

/// A task as it travels through the pool: the work itself and the priority
/// it was submitted with. The pool carries the priority along with the task
/// and reports it; the queues keep their arrival order.
pub struct TaskEnvelope<T> {
    /// The task to execute.
    pub task: T,
    /// The priority of the task.
    pub priority: usize,
}

/// The character of a decimal digit.
pub open spec fn digit_char(d: nat) -> char {
    if d == 0 {
        '0'
    } else if d == 1 {
        '1'
    } else if d == 2 {
        '2'
    } else if d == 3 {
        '3'
    } else if d == 4 {
        '4'
    } else if d == 5 {
        '5'
    } else if d == 6 {
        '6'
    } else if d == 7 {
        '7'
    } else if d == 8 {
        '8'
    } else {
        '9'
    }
}

/// The decimal notation of a number, without leading zeros.
pub open spec fn decimal(n: nat) -> Seq<char>
    decreases n,
{
    if n < 10 {
        seq![digit_char(n)]
    } else {
        decimal(n / 10) + seq![digit_char(n % 10)]
    }
}

/// The text of a decimal digit.
fn digit_str(d: usize) -> (s: &'static str)
    requires
        d < 10,
    ensures
        s@ == seq![digit_char(d as nat)],
{
    proof {
        reveal_strlit("0");
        reveal_strlit("1");
        reveal_strlit("2");
        reveal_strlit("3");
        reveal_strlit("4");
        reveal_strlit("5");
        reveal_strlit("6");
        reveal_strlit("7");
        reveal_strlit("8");
        reveal_strlit("9");
    }
    if d == 0 {
        "0"
    } else if d == 1 {
        "1"
    } else if d == 2 {
        "2"
    } else if d == 3 {
        "3"
    } else if d == 4 {
        "4"
    } else if d == 5 {
        "5"
    } else if d == 6 {
        "6"
    } else if d == 7 {
        "7"
    } else if d == 8 {
        "8"
    } else {
        "9"
    }
}

/// Appends the decimal notation of `n`.
fn append_decimal(out: &mut String, n: usize)
    ensures
        final(out)@ == old(out)@ + decimal(n as nat),
    decreases n,
{
    if n >= 10 {
        append_decimal(out, n / 10);
    }
    out.append(digit_str(n % 10));
    assert(out@ =~= old(out)@ + decimal(n as nat));
}

impl<T> TaskEnvelope<T> {
    /// Wraps a task with its priority.
    pub fn new(task: T, priority: usize) -> (env: Self)
        ensures
            env.task == task,
            env.priority == priority,
    {
        TaskEnvelope { task, priority }
    }

    /// The envelope's debug text, which shows its priority only:
    /// `TaskEnvelope { priority: N }`.
    pub fn describe(&self) -> (text: String)
        ensures
            text@ == "TaskEnvelope { priority: "@ + decimal(self.priority as nat) + " }"@,
    {
        let mut text = String::from_str("TaskEnvelope { priority: ");
        append_decimal(&mut text, self.priority);
        text.append(" }");
        text
    }
}

} // verus!
