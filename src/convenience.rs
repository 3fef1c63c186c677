//! Sugar for building tasks: cron aliases, the expression type they become,
//! and the handle of a run that holds nothing.
use vstd::prelude::*;

verus! {

/// The handle of a run that holds nothing: quitting it always succeeds.
#[derive(Debug, Clone, Copy, PartialEq, Eq, Structural)]
pub struct MyUnit;

impl MyUnit {
    pub fn quit(self) -> (r: Result<(), ()>)
        ensures
            r is Ok,
    {
        Ok(())
    }
}

/// The handle of a run, whose `quit` ends what the run left in flight: no
/// work at all, a list of child processes `P`, or a cooperative activity `A`.
pub enum DelayTaskHandler<P, A> {
    Unit(MyUnit),
    ProcessList(P),
    Activity(A),
}

/// The handle of a cooperative activity.
pub fn create_delay_task_handler<P, A>(task_handle: A) -> (r: DelayTaskHandler<P, A>)
    ensures
        r == DelayTaskHandler::<P, A>::Activity(task_handle),
{
    DelayTaskHandler::Activity(task_handle)
}

/// The handle of the processes that a shell command started.
pub fn create_process_task<P, A>(process_linked_list: P) -> (r: DelayTaskHandler<P, A>)
    ensures
        r == DelayTaskHandler::<P, A>::ProcessList(process_linked_list),
{
    DelayTaskHandler::ProcessList(process_linked_list)
}

/// The handle of a run that left nothing in flight.
pub fn create_default_delay_task_handler<P, A>() -> (r: DelayTaskHandler<P, A>)
    ensures
        r == DelayTaskHandler::<P, A>::Unit(MyUnit),
{
    DelayTaskHandler::Unit(MyUnit)
}

/// A cron expression.
#[derive(Debug, Clone)]
pub struct CandyCronStr(pub String);

impl std::ops::Deref for CandyCronStr {
    type Target = str;

    fn deref(&self) -> (r: &str)
        ensures
            r@ == self.0@,
    {
        self.0.as_str()
    }
}

/// Cron aliases.
#[derive(Debug, Clone, Copy, PartialEq, Eq, Structural)]
pub enum CandyCron {
    Secondly,
    Minutely,
    Hourly,
    Daily,
    Weekly,
    Monthly,
    Yearly,
}

/// The expression that an alias stands for.
pub open spec fn alias_text(candy: CandyCron) -> Seq<char> {
    match candy {
        CandyCron::Secondly => "@secondly"@,
        CandyCron::Minutely => "@minutely"@,
        CandyCron::Hourly => "@hourly"@,
        CandyCron::Daily => "@daily"@,
        CandyCron::Weekly => "@weekly"@,
        CandyCron::Monthly => "@monthly"@,
        CandyCron::Yearly => "@yearly"@,
    }
}

impl CandyCron {
    /// The cron expression of the alias.
    pub fn expression(self) -> (r: &'static str)
        ensures
            r@ == alias_text(self),
    {
        match self {
            CandyCron::Secondly => "@secondly",
            CandyCron::Minutely => "@minutely",
            CandyCron::Hourly => "@hourly",
            CandyCron::Daily => "@daily",
            CandyCron::Weekly => "@weekly",
            CandyCron::Monthly => "@monthly",
            CandyCron::Yearly => "@yearly",
        }
    }

    /// The alias as an expression.
    pub fn to_candy_cron_str(self) -> (r: CandyCronStr)
        ensures
            r.0@ == alias_text(self),
    {
        CandyCronStr(self.expression().to_owned())
    }
}

impl Into<CandyCronStr> for CandyCron {
    fn into(self) -> CandyCronStr {
        self.to_candy_cron_str()
    }
}

/// A spec function cannot build the `String` inside the result: what `into`
/// gives is stated by `to_candy_cron_str`.
impl vstd::std_specs::convert::IntoSpecImpl<CandyCronStr> for CandyCron {
    open spec fn obeys_into_spec() -> bool {
        false
    }

    open spec fn into_spec(self) -> CandyCronStr {
        arbitrary()
    }
}

/// How often a task fires, over an expression or an alias.
#[derive(Debug, Clone, Copy)]
pub enum CandyFrequency<T: Into<CandyCronStr>> {
    /// Once.
    Once(T),
    /// For ever.
    Repeated(T),
    /// A given number of times.
    CountDown(u32, T),
}

} // verus!
