//! The blink controller: when the indicator blinks, and how a blink ends.
//!
//! Nothing here touches the device. The controller and the blink task are
//! state machines: each call says what has to be done next, and the caller
//! does it. The controller hands out [`LedCommand`]s; a blink task, which the
//! caller runs in the background, hands out one [`TaskStep`] per call.
//!
//! A blink period is identified by its generation, a number that goes up by
//! one with each period and begins again at zero after the largest. The task
//! of a period is told to stop when the period ends.

use vstd::prelude::*;

verus! {

/// What is to be done for the controller.
#[derive(Clone, Copy, Debug, PartialEq, Eq, Structural)]
pub enum LedCommand {
    /// Write this state to the device now.
    Write { on: bool },
    /// Run this blink task in the background.
    Launch { task: BlinkTask },
    /// Tell the blink task of this generation to stop.
    Cancel { generation: u64 },
}

/// What a blink task is to do next.
#[derive(Clone, Copy, Debug, PartialEq, Eq, Structural)]
pub enum TaskStep {
    /// Write this state to the device; then wait until the time has passed
    /// or the stop signal changes, whichever comes first, and step again.
    /// A write that fails is reported and nothing more: the task goes on.
    Toggle { on: bool, wait_ms: u64 },
    /// Write "off" to the device and end.
    Finish,
    /// The task has ended: nothing is to be done.
    Ended,
}

impl TaskStep {
    /// The state that the step writes to the device, if it writes.
    pub open spec fn written(self) -> Option<bool> {
        match self {
            TaskStep::Toggle { on, .. } => Some(on),
            TaskStep::Finish => Some(false),
            TaskStep::Ended => None,
        }
    }
}

/// The background task of one blink period.
#[derive(Clone, Copy, Debug, PartialEq, Eq, Structural)]
pub struct BlinkTask {
    /// The blink period that the task belongs to.
    pub generation: u64,
    /// The time between two writes, in milliseconds.
    pub interval_ms: u64,
    /// The state that the next write sets.
    pub next_on: bool,
    /// Whether the task has ended.
    pub finished: bool,
}

impl BlinkTask {
    /// The task as it is launched: its first write turns the device on.
    pub open spec fn fresh(generation: u64, interval_ms: u64) -> BlinkTask {
        BlinkTask { generation, interval_ms, next_on: true, finished: false }
    }

    /// The task after a step, and the step, where `stop` tells whether the
    /// task has been told to stop.
    pub open spec fn after_step(self, stop: bool) -> (BlinkTask, TaskStep) {
        if self.finished {
            (self, TaskStep::Ended)
        } else if stop {
            (BlinkTask { finished: true, ..self }, TaskStep::Finish)
        } else {
            (
                BlinkTask { next_on: !self.next_on, ..self },
                TaskStep::Toggle { on: self.next_on, wait_ms: self.interval_ms },
            )
        }
    }

    /// The task after one step for each element of `stops`, and the states
    /// written to the device on the way, in order.
    pub open spec fn after_steps(self, stops: Seq<bool>) -> (BlinkTask, Seq<bool>)
        decreases stops.len(),
    {
        if stops.len() == 0 {
            (self, Seq::empty())
        } else {
            let before = self.after_steps(stops.drop_last());
            let last = before.0.after_step(stops.last());
            (
                last.0,
                match last.1.written() {
                    Some(on) => before.1.push(on),
                    None => before.1,
                },
            )
        }
    }

    /// A task for the blink period `generation`.
    pub fn new(generation: u64, interval_ms: u64) -> (task: Self)
        ensures
            task == Self::fresh(generation, interval_ms),
    {
        BlinkTask { generation, interval_ms, next_on: true, finished: false }
    }

    /// Decides the next step. `stop_requested` is the stop signal as it
    /// stands now: the task asks for it before each write and after each wait.
    pub fn step(&mut self, stop_requested: bool) -> (next: TaskStep)
        ensures
            (*final(self), next) == old(self).after_step(stop_requested),
    {
        if self.finished {
            TaskStep::Ended
        } else if stop_requested {
            self.finished = true;
            TaskStep::Finish
        } else {
            let on = self.next_on;
            self.next_on = !on;
            TaskStep::Toggle { on, wait_ms: self.interval_ms }
        }
    }
}

/// The characters written to the device for a state: `1` for on, `0` for off.
pub open spec fn payload(on: bool) -> Seq<char> {
    if on {
        seq!['1']
    } else {
        seq!['0']
    }
}

/// The text to write to the device for a state.
pub fn device_payload(on: bool) -> (text: &'static str)
    ensures
        text@ == payload(on),
{
    proof {
        reveal_strlit("1");
        reveal_strlit("0");
    }
    let text = if on {
        "1"
    } else {
        "0"
    };
    assert(text@ =~= payload(on));
    text
}

/// Drives one indicator: idle, or blinking in the current generation.
#[derive(Debug)]
pub struct LedController {
    led_path: String,
    blink_interval: u64,
    is_blinking: bool,
    generation: u64,
}

/// The mathematical value of a [`LedController`].
pub struct LedView {
    /// The path of the device.
    pub led_path: Seq<char>,
    /// The time between two writes of a blink, in milliseconds.
    pub blink_interval: u64,
    /// Whether a blink period is under way.
    pub is_blinking: bool,
    /// The generation of the latest blink period; zero before the first.
    pub generation: u64,
}

impl LedView {
    /// Whether the task of `generation` has been told to stop. The task of
    /// the period under way is the only one that has not.
    pub open spec fn cancelled(self, generation: u64) -> bool {
        !(self.is_blinking && self.generation == generation)
    }

    /// The generation that follows `generation`.
    pub open spec fn next_generation(generation: u64) -> u64 {
        if generation == u64::MAX {
            0
        } else {
            (generation + 1) as u64
        }
    }

    /// The controller after a start, and the commands of the start.
    pub open spec fn start(self) -> (LedView, Seq<LedCommand>) {
        if self.is_blinking {
            (self, Seq::empty())
        } else {
            let generation = Self::next_generation(self.generation);
            (
                LedView { is_blinking: true, generation, ..self },
                seq![LedCommand::Launch { task: BlinkTask::fresh(generation, self.blink_interval) }],
            )
        }
    }

    /// The controller after a stop, and the commands of the stop.
    pub open spec fn stop(self) -> (LedView, Seq<LedCommand>) {
        if !self.is_blinking {
            (self, Seq::empty())
        } else {
            (
                LedView { is_blinking: false, ..self },
                seq![
                    LedCommand::Cancel { generation: self.generation },
                    LedCommand::Write { on: false },
                ],
            )
        }
    }
}

impl View for LedController {
    type V = LedView;

    closed spec fn view(&self) -> LedView {
        LedView {
            led_path: self.led_path@,
            blink_interval: self.blink_interval,
            is_blinking: self.is_blinking,
            generation: self.generation,
        }
    }
}

impl LedController {
    /// An idle controller for the device at `led_path`, with the command that
    /// is to be carried out before anything else: it turns the device off, and
    /// shows whether the device can be written. A controller whose first
    /// command failed is not to be used.
    pub fn new(led_path: String, blink_interval: u64) -> (r: (Self, LedCommand))
        ensures
            r.0@ == (LedView {
                led_path: led_path@,
                blink_interval,
                is_blinking: false,
                generation: 0,
            }),
            r.1 == (LedCommand::Write { on: false }),
    {
        (
            LedController { led_path, blink_interval, is_blinking: false, generation: 0 },
            LedCommand::Write { on: false },
        )
    }

    /// The command that sets the device to `on`.
    pub fn set_led_state(&self, on: bool) -> (command: LedCommand)
        ensures
            command == (LedCommand::Write { on }),
    {
        LedCommand::Write { on }
    }

    /// Begins a blink period, unless one is under way. The task of the new
    /// period uses the interval as it is set now.
    pub fn start_blinking(&mut self) -> (commands: Vec<LedCommand>)
        ensures
            (final(self)@, commands@) == old(self)@.start(),
    {
        let mut commands: Vec<LedCommand> = Vec::new();
        if self.is_blinking {
            assert(commands@ =~= Seq::empty());
            return commands;
        }
        self.generation = if self.generation == u64::MAX {
            0
        } else {
            self.generation + 1
        };
        self.is_blinking = true;
        commands.push(LedCommand::Launch { task: BlinkTask::new(self.generation, self.blink_interval) });
        assert(commands@ =~= old(self)@.start().1);
        commands
    }

    /// Ends the blink period under way, if there is one: its task is told to
    /// stop, and the device is turned off at once, without waiting for the
    /// task to end.
    pub fn stop_blinking(&mut self) -> (commands: Vec<LedCommand>)
        ensures
            (final(self)@, commands@) == old(self)@.stop(),
    {
        let mut commands: Vec<LedCommand> = Vec::new();
        if !self.is_blinking {
            assert(commands@ =~= Seq::empty());
            return commands;
        }
        self.is_blinking = false;
        commands.push(LedCommand::Cancel { generation: self.generation });
        commands.push(LedCommand::Write { on: false });
        assert(commands@ =~= old(self)@.stop().1);
        commands
    }

    /// Whether a blink period is under way.
    pub fn is_blinking(&self) -> (b: bool)
        ensures
            b == self@.is_blinking,
    {
        self.is_blinking
    }

    /// The time between two writes of a blink, in milliseconds.
    pub fn blink_interval(&self) -> (interval: u64)
        ensures
            interval == self@.blink_interval,
    {
        self.blink_interval
    }

    /// Sets the time between two writes of a blink. A blink that is under
    /// way keeps its interval: the new one holds from the next start.
    pub fn set_blink_interval(&mut self, interval: u64)
        ensures
            final(self)@ == (LedView { blink_interval: interval, ..old(self)@ }),
    {
        self.blink_interval = interval;
    }

    /// The path of the device.
    pub fn led_path(&self) -> (path: &str)
        ensures
            path@ == self@.led_path,
    {
        self.led_path.as_str()
    }

    /// The generation of the latest blink period.
    pub fn generation(&self) -> (generation: u64)
        ensures
            generation == self@.generation,
    {
        self.generation
    }

    /// Whether the task of `generation` has been told to stop.
    pub fn is_cancelled(&self, generation: u64) -> (b: bool)
        ensures
            b == self@.cancelled(generation),
    {
        !(self.is_blinking && self.generation == generation)
    }
}

/// A controller together with what it has set going: the tasks it has
/// launched, in order, and the states written to the device so far. A task
/// reads its stop signal and writes in one step.
pub struct Rig {
    pub led: LedView,
    pub tasks: Seq<BlinkTask>,
    pub device: Seq<bool>,
}

/// Something that happens to a rig.
pub enum RigEvent {
    /// The controller is asked to start.
    Start,
    /// The controller is asked to stop.
    Stop,
    /// The task at this position takes a step.
    Step { task: int },
}

impl Rig {
    /// The rig of a new controller, once its first command is carried out.
    pub open spec fn initial(led_path: Seq<char>, blink_interval: u64) -> Rig {
        Rig {
            led: LedView { led_path, blink_interval, is_blinking: false, generation: 0 },
            tasks: Seq::empty(),
            device: seq![false],
        }
    }

    /// The rig after `commands` were carried out, in order.
    pub open spec fn performed(self, commands: Seq<LedCommand>) -> Rig
        decreases commands.len(),
    {
        if commands.len() == 0 {
            self
        } else {
            let before = self.performed(commands.drop_last());
            match commands.last() {
                LedCommand::Write { on } => Rig { device: before.device.push(on), ..before },
                LedCommand::Launch { task } => Rig { tasks: before.tasks.push(task), ..before },
                LedCommand::Cancel { .. } => before,
            }
        }
    }

    /// The rig after `event`.
    pub open spec fn after(self, event: RigEvent) -> Rig {
        match event {
            RigEvent::Start => (Rig { led: self.led.start().0, ..self }).performed(
                self.led.start().1,
            ),
            RigEvent::Stop => (Rig { led: self.led.stop().0, ..self }).performed(self.led.stop().1),
            RigEvent::Step { task } => if 0 <= task < self.tasks.len() {
                let stepped = self.tasks[task].after_step(
                    self.led.cancelled(self.tasks[task].generation),
                );
                Rig {
                    tasks: self.tasks.update(task, stepped.0),
                    device: match stepped.1.written() {
                        Some(on) => self.device.push(on),
                        None => self.device,
                    },
                    ..self
                }
            } else {
                self
            },
        }
    }

    /// The rig after `events`, first to last.
    pub open spec fn after_all(self, events: Seq<RigEvent>) -> Rig
        decreases events.len(),
    {
        if events.len() == 0 {
            self
        } else {
            self.after_all(events.drop_last()).after(events.last())
        }
    }

    /// Whether the task at position `task` goes on blinking: it has not
    /// ended and has not been told to stop.
    pub open spec fn live(self, task: int) -> bool {
        &&& 0 <= task < self.tasks.len()
        &&& !self.tasks[task].finished
        &&& !self.led.cancelled(self.tasks[task].generation)
    }

    /// What holds of every rig that a new controller gets to by `events`
    /// events.
    pub open spec fn sound(self, events: nat) -> bool {
        &&& self.tasks.len() <= events
        &&& self.device.len() > 0
        &&& !self.led.is_blinking ==> self.device.last() == false
        &&& events <= u64::MAX ==> {
            &&& self.led.generation == self.tasks.len()
            &&& forall|i: int|
                0 <= i < self.tasks.len() ==> (#[trigger] self.tasks[i]).generation == i + 1
        }
    }
}

/// An event leaves a sound rig sound.
proof fn lemma_rig_step(rig: Rig, events: nat, event: RigEvent)
    requires
        rig.sound(events),
    ensures
        rig.after(event).sound(events + 1),
{
    reveal_with_fuel(Rig::performed, 3);
    match event {
        RigEvent::Start => {
            let commands = rig.led.start().1;
            if commands.len() > 0 {
                assert(commands.drop_last() =~= Seq::<LedCommand>::empty());
            }
        },
        RigEvent::Stop => {
            let commands = rig.led.stop().1;
            if commands.len() > 0 {
                assert(commands.drop_last() =~= seq![
                    LedCommand::Cancel { generation: rig.led.generation },
                ]);
                assert(commands.drop_last().drop_last() =~= Seq::<LedCommand>::empty());
            }
        },
        RigEvent::Step { task } => {},
    }
}

/// Whatever happens to a new controller and its tasks, in whatever order:
/// while the controller is idle, the state last written to the device is
/// "off" and no task goes on blinking; and at most one task goes on blinking
/// at any time, as long as the generations have not begun again at zero.
pub proof fn lemma_rig_is_sound(led_path: Seq<char>, blink_interval: u64, events: Seq<RigEvent>)
    ensures
        ({
            let rig = Rig::initial(led_path, blink_interval).after_all(events);
            &&& rig.sound(events.len())
            &&& !rig.led.is_blinking ==> rig.device.last() == false
            &&& !rig.led.is_blinking ==> forall|task: int| !rig.live(task)
            &&& events.len() <= u64::MAX ==> forall|first: int, second: int|
                rig.live(first) && rig.live(second) ==> first == second
        }),
    decreases events.len(),
{
    if events.len() > 0 {
        lemma_rig_is_sound(led_path, blink_interval, events.drop_last());
        lemma_rig_step(
            Rig::initial(led_path, blink_interval).after_all(events.drop_last()),
            (events.len() - 1) as nat,
            events.last(),
        );
    }
}

/// A start that begins a blink period launches exactly one task, which has
/// not been told to stop and whose first step turns the device on and waits
/// one interval.
pub proof fn lemma_start_turns_on(led: LedView)
    requires
        !led.is_blinking,
    ensures
        led.start().0.is_blinking,
        led.start().1.len() == 1,
        led.start().1[0] matches LedCommand::Launch { task } && !led.start().0.cancelled(
            task.generation,
        ) && task.after_step(false).1 == (TaskStep::Toggle {
            on: true,
            wait_ms: led.blink_interval,
        }),
{
}

/// A stop leaves the controller idle with every task told to stop, and where
/// a blink was under way, the last thing it asks for is an "off" write.
pub proof fn lemma_stop_turns_off(led: LedView)
    ensures
        !led.stop().0.is_blinking,
        forall|generation: u64| led.stop().0.cancelled(generation),
        led.is_blinking ==> led.stop().1.last() == (LedCommand::Write { on: false }),
        !led.is_blinking ==> led.stop() == (led, Seq::<LedCommand>::empty()),
{
}

/// A second start right after a start changes nothing and asks for nothing:
/// no second task is launched.
pub proof fn lemma_start_is_idempotent(led: LedView)
    ensures
        led.start().0.start() == (led.start().0, Seq::<LedCommand>::empty()),
{
}

/// At most one task has not been told to stop: the one of the period under
/// way. A start does not tell the task of the period before to go on again.
pub proof fn lemma_one_live_task(led: LedView, first: u64, second: u64)
    ensures
        !led.cancelled(first) && !led.cancelled(second) ==> first == second,
        !led.is_blinking ==> led.start().0.cancelled(led.generation),
        led.is_blinking && first != led.generation ==> led.start().0.cancelled(first),
{
}

/// A task that is not told to stop writes on, off, on, off and so on.
pub proof fn lemma_task_alternates(generation: u64, interval_ms: u64, steps: nat)
    ensures
        ({
            let run = BlinkTask::fresh(generation, interval_ms).after_steps(
                Seq::new(steps, |i: int| false),
            );
            &&& run.0 == BlinkTask {
                next_on: steps % 2 == 0,
                ..BlinkTask::fresh(generation, interval_ms)
            }
            &&& run.1 == Seq::new(steps, |i: int| i % 2 == 0)
        }),
    decreases steps,
{
    let stops = Seq::new(steps, |i: int| false);
    if steps > 0 {
        lemma_task_alternates(generation, interval_ms, (steps - 1) as nat);
        assert(stops.drop_last() =~= Seq::new((steps - 1) as nat, |i: int| false));
        let run = BlinkTask::fresh(generation, interval_ms).after_steps(stops);
        assert(run.1 =~= Seq::new(steps, |i: int| i % 2 == 0));
    } else {
        let run = BlinkTask::fresh(generation, interval_ms).after_steps(stops);
        assert(run.1 =~= Seq::new(steps, |i: int| i % 2 == 0));
    }
}

/// Once a task has been told to stop, it has ended, the last state it wrote
/// is "off", and it writes nothing more, whatever it is told afterwards.
pub proof fn lemma_task_ends_off(task: BlinkTask, stops: Seq<bool>)
    requires
        !task.finished,
        exists|i: int| 0 <= i < stops.len() && stops[i],
    ensures
        task.after_steps(stops).0.finished,
        task.after_steps(stops).1.len() > 0,
        task.after_steps(stops).1.last() == false,
    decreases stops.len(),
{
    let earlier = stops.drop_last();
    let before = task.after_steps(earlier);
    if exists|i: int| 0 <= i < earlier.len() && earlier[i] {
        lemma_task_ends_off(task, earlier);
    } else {
        let i = choose|i: int| 0 <= i < stops.len() && stops[i];
        assert(i == stops.len() - 1) by {
            if i < stops.len() - 1 {
                assert(earlier[i]);
            }
        }
        lemma_task_goes_on(task, earlier);
    }
}

/// A task that has not been told to stop has not ended.
pub proof fn lemma_task_goes_on(task: BlinkTask, stops: Seq<bool>)
    requires
        !task.finished,
        forall|i: int| 0 <= i < stops.len() ==> !stops[i],
    ensures
        !task.after_steps(stops).0.finished,
    decreases stops.len(),
{
    if stops.len() > 0 {
        lemma_task_goes_on(task, stops.drop_last());
    }
}

} // verus!
