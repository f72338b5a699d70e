//! System commands: the cart arguments of `load`, the `extcmd` requests and the
//! queue that works through them one at a time at the end of each frame.
use vstd::prelude::*;

use std::collections::VecDeque;

use crate::plan::{add_script_functions, script_steps, AppPlan, Schedule, Setup};
use crate::text::string_push;

verus! {

/// Parameter string and breadcrumb from `load()` or the command line.
///
/// Pico-8 `stat(6)` is the parameter string; `stat(100)` is the breadcrumb.
#[derive(Debug, Clone)]
pub struct CartArgs {
    /// Arbitrary string from `load(..., param)`. Pico-8 `stat(6)`.
    pub param: String,
    /// Breadcrumb from `load(filename, breadcrumb, ...)`. Pico-8 `stat(100)`.
    pub breadcrumb: String,
}

impl Default for CartArgs {
    fn default() -> (r: CartArgs)
        ensures
            r.param@ == Seq::<char>::empty(),
            r.breadcrumb@ == Seq::<char>::empty(),
    {
        CartArgs { param: String::new(), breadcrumb: String::new() }
    }
}

/// The characters of an optional string, empty when absent.
pub open spec fn text_or_empty(s: Option<&str>) -> Seq<char> {
    match s {
        Some(t) => t@,
        None => Seq::empty(),
    }
}

impl CartArgs {
    /// Pico-8 `load(filename, [breadcrumb], [param])`: stores the breadcrumb and
    /// the parameter string, and gives the cart to swap in. A missing or empty
    /// filename (Pico-8's load dialog) swaps nothing.
    pub fn load(&mut self, filename: Option<&str>, breadcrumb: Option<&str>, param: Option<&str>) -> (r:
        Option<String>)
        ensures
            final(self).breadcrumb@ == text_or_empty(breadcrumb),
            final(self).param@ == text_or_empty(param),
            match filename {
                Some(f) => if f@.len() == 0 {
                    r is None
                } else {
                    r matches Some(s) && s@ == f@
                },
                None => r is None,
            },
    {
        self.breadcrumb = match breadcrumb {
            Some(b) => b.to_owned(),
            None => String::new(),
        };
        self.param = match param {
            Some(p) => p.to_owned(),
            None => String::new(),
        };
        match filename {
            Some(f) => if f.is_empty() {
                None
            } else {
                Some(f.to_owned())
            },
            None => None,
        }
    }
}

/// Sequential `extcmd` work, processed one item at a time at the end of a frame.
#[derive(Debug)]
pub enum ExtcmdRequest {
    /// Wait until the cart runs (or is paused).
    WaitTilReady,
    /// Make the window with this entity id visible.
    RevealWindow(u64),
    /// Take a screenshot of the canvas into this file.
    StartScreenshot(String),
    /// Wait until the screenshot with this ticket is on disk.
    WaitForScreenshot(u64),
    /// Quit the application.
    Shutdown,
}

/// The requests queued when the primary window appears: wait for the cart, then show it.
pub fn queue_startup_window(window: u64) -> (r: Vec<ExtcmdRequest>)
    ensures
        r@ == seq![ExtcmdRequest::WaitTilReady, ExtcmdRequest::RevealWindow(window)],
{
    let mut r = Vec::new();
    r.push(ExtcmdRequest::WaitTilReady);
    r.push(ExtcmdRequest::RevealWindow(window));
    r
}

/// The request queued at startup without a window: wait for the cart.
pub fn queue_startup_headless() -> (r: Vec<ExtcmdRequest>)
    ensures
        r@ == seq![ExtcmdRequest::WaitTilReady],
{
    let mut r = Vec::new();
    r.push(ExtcmdRequest::WaitTilReady);
    r
}

/// What the queue sees of the application while it works.
pub struct PumpWorld {
    /// The cart runs or is paused.
    pub run_ready: bool,
    /// The canvas size, once the canvas exists.
    pub canvas_size: Option<(u32, u32)>,
    /// No window is shown.
    pub headless: bool,
    /// The canvas renders into an image that can be captured.
    pub has_image_target: bool,
    /// Each window: its entity id and whether it is visible.
    pub windows: Vec<(u64, bool)>,
    /// The tickets of the screenshots that are on disk.
    pub written: Vec<u64>,
}

/// Work that the queue hands to the application.
#[derive(Debug)]
pub enum PumpAction {
    /// Make the window visible.
    ShowWindow(u64),
    /// Capture the screen (or, when `to_image`, the canvas image) into `path`,
    /// scaled to `canvas_size`, and report `ticket` as written once it is saved.
    Screenshot { path: String, canvas_size: (u32, u32), ticket: u64, to_image: bool },
    /// Quit successfully.
    Exit,
}

/// The queue of pending requests and the one being worked on.
pub struct ReadyQueue {
    pub queue: VecDeque<ExtcmdRequest>,
    pub current: Option<ExtcmdRequest>,
    pub next_ticket: u64,
}

impl Default for ReadyQueue {
    fn default() -> (r: ReadyQueue)
        ensures
            r.queue@ == Seq::<ExtcmdRequest>::empty(),
            r.current is None,
            r.next_ticket == 0,
    {
        ReadyQueue { queue: VecDeque::new(), current: None, next_ticket: 0 }
    }
}

/// Whether `i` is the first window with entity id `e`.
pub open spec fn first_window(ws: Seq<(u64, bool)>, e: u64, i: int) -> bool {
    &&& 0 <= i < ws.len()
    &&& ws[i].0 == e
    &&& forall|j: int| 0 <= j < i ==> ws[j].0 != e
}

/// The visibility of the window with entity id `e`, or `None` when there is none.
pub open spec fn window_state(ws: Seq<(u64, bool)>, e: u64) -> Option<bool> {
    if exists|i: int| 0 <= i < ws.len() && ws[i].0 == e {
        Some(ws[choose|i: int| first_window(ws, e, i)].1)
    } else {
        None
    }
}

/// The ticket after `t`.
pub open spec fn next_ticket(t: u64) -> u64 {
    if t < u64::MAX {
        (t + 1) as u64
    } else {
        0
    }
}

/// The outcome of working once on one request.
pub ghost struct PumpStep {
    pub done: bool,
    pub current: Option<ExtcmdRequest>,
    pub ticket: u64,
    pub action: Option<PumpAction>,
}

/// Working on `item`: `done` when it is finished, otherwise what is worked on next frame.
pub open spec fn pump_step(item: ExtcmdRequest, w: PumpWorld, ticket: u64) -> PumpStep {
    let wait = PumpStep { done: false, current: Some(item), ticket, action: None };
    let finished = PumpStep { done: true, current: None, ticket, action: None };
    match item {
        ExtcmdRequest::WaitTilReady => if w.run_ready {
            finished
        } else {
            wait
        },
        ExtcmdRequest::RevealWindow(e) => match window_state(w.windows@, e) {
            Some(false) => PumpStep {
                done: false,
                current: Some(item),
                ticket,
                action: Some(PumpAction::ShowWindow(e)),
            },
            _ => finished,
        },
        ExtcmdRequest::StartScreenshot(path) => match w.canvas_size {
            None => wait,
            Some(size) => if (w.headless && !w.has_image_target) || (!w.headless && !(exists|
                i: int,
            | 0 <= i < w.windows@.len() && w.windows@[i].1)) {
                wait
            } else {
                PumpStep {
                    done: false,
                    current: Some(ExtcmdRequest::WaitForScreenshot(ticket)),
                    ticket: next_ticket(ticket),
                    action: Some(
                        PumpAction::Screenshot {
                            path,
                            canvas_size: size,
                            ticket,
                            to_image: w.headless,
                        },
                    ),
                }
            },
        },
        ExtcmdRequest::WaitForScreenshot(t) => if w.written@.contains(t) {
            finished
        } else {
            wait
        },
        ExtcmdRequest::Shutdown => PumpStep {
            done: true,
            current: None,
            ticket,
            action: Some(PumpAction::Exit),
        },
    }
}

/// The actions of one step.
pub open spec fn step_actions(s: PumpStep) -> Seq<PumpAction> {
    match s.action {
        Some(a) => seq![a],
        None => Seq::empty(),
    }
}

/// Working through the queue in order until a request is not finished, or the
/// queue runs dry: the queue left, the request worked on next, the next ticket,
/// and the actions taken, in order.
pub open spec fn pump_spec(
    queue: Seq<ExtcmdRequest>,
    current: Option<ExtcmdRequest>,
    ticket: u64,
    w: PumpWorld,
) -> (Seq<ExtcmdRequest>, Option<ExtcmdRequest>, u64, Seq<PumpAction>)
    decreases queue.len(), if current is Some {
        1int
    } else {
        0int
    },
{
    match current {
        None => if queue.len() == 0 {
            (queue, None, ticket, Seq::empty())
        } else {
            pump_spec(queue.drop_first(), Some(queue[0]), ticket, w)
        },
        Some(item) => {
            let s = pump_step(item, w, ticket);
            if s.done {
                let r = pump_spec(queue, None, s.ticket, w);
                (r.0, r.1, r.2, step_actions(s) + r.3)
            } else {
                (queue, s.current, s.ticket, step_actions(s))
            }
        },
    }
}

/// The visibility of the window with entity id `e`, or `None` when there is none.
fn find_window(ws: &Vec<(u64, bool)>, e: u64) -> (r: Option<bool>)
    ensures
        r == window_state(ws@, e),
{
    let mut i: usize = 0;
    while i < ws.len()
        invariant
            i <= ws@.len(),
            forall|j: int| 0 <= j < i ==> ws@[j].0 != e,
        decreases ws@.len() - i,
    {
        if ws[i].0 == e {
            proof {
                assert(first_window(ws@, e, i as int));
                let k = choose|k: int| first_window(ws@, e, k);
                assert(first_window(ws@, e, k));
                assert(k == i as int) by {
                    if k < i {
                        assert(ws@[k].0 != e);
                    } else if k > i {
                        assert(ws@[i as int].0 != e);
                    }
                }
            }
            return Some(ws[i].1);
        }
        i = i + 1;
    }
    None
}

/// Whether some window is visible.
fn any_visible(ws: &Vec<(u64, bool)>) -> (r: bool)
    ensures
        r == (exists|i: int| 0 <= i < ws@.len() && ws@[i].1),
{
    let mut i: usize = 0;
    while i < ws.len()
        invariant
            i <= ws@.len(),
            forall|j: int| 0 <= j < i ==> !ws@[j].1,
        decreases ws@.len() - i,
    {
        if ws[i].1 {
            return true;
        }
        i = i + 1;
    }
    false
}

/// Whether the ticket is among those written.
fn ticket_written(ts: &Vec<u64>, t: u64) -> (r: bool)
    ensures
        r == ts@.contains(t),
{
    let mut i: usize = 0;
    while i < ts.len()
        invariant
            i <= ts@.len(),
            forall|j: int| 0 <= j < i ==> ts@[j] != t,
        decreases ts@.len() - i,
    {
        if ts[i] == t {
            assert(ts@[i as int] == t);
            return true;
        }
        i = i + 1;
    }
    false
}

/// Works once on `item` (see `pump_step`).
fn step_request(item: ExtcmdRequest, w: &PumpWorld, ticket: u64) -> (r: (
    bool,
    Option<ExtcmdRequest>,
    u64,
    Option<PumpAction>,
))
    ensures
        ({
            let s = pump_step(item, *w, ticket);
            r.0 == s.done && r.1 == s.current && r.2 == s.ticket && r.3 == s.action
        }),
{
    match item {
        ExtcmdRequest::WaitTilReady => {
            if w.run_ready {
                (true, None, ticket, None)
            } else {
                (false, Some(ExtcmdRequest::WaitTilReady), ticket, None)
            }
        },
        ExtcmdRequest::RevealWindow(e) => {
            match find_window(&w.windows, e) {
                Some(false) => (
                    false,
                    Some(ExtcmdRequest::RevealWindow(e)),
                    ticket,
                    Some(PumpAction::ShowWindow(e)),
                ),
                _ => (true, None, ticket, None),
            }
        },
        ExtcmdRequest::StartScreenshot(path) => {
            match w.canvas_size {
                None => (false, Some(ExtcmdRequest::StartScreenshot(path)), ticket, None),
                Some(size) => {
                    let blocked = if w.headless {
                        !w.has_image_target
                    } else {
                        !any_visible(&w.windows)
                    };
                    if blocked {
                        (false, Some(ExtcmdRequest::StartScreenshot(path)), ticket, None)
                    } else {
                        let next = if ticket < u64::MAX {
                            ticket + 1
                        } else {
                            0
                        };
                        (
                            false,
                            Some(ExtcmdRequest::WaitForScreenshot(ticket)),
                            next,
                            Some(
                                PumpAction::Screenshot {
                                    path,
                                    canvas_size: size,
                                    ticket,
                                    to_image: w.headless,
                                },
                            ),
                        )
                    }
                },
            }
        },
        ExtcmdRequest::WaitForScreenshot(t) => {
            if ticket_written(&w.written, t) {
                (true, None, ticket, None)
            } else {
                (false, Some(ExtcmdRequest::WaitForScreenshot(t)), ticket, None)
            }
        },
        ExtcmdRequest::Shutdown => (true, None, ticket, Some(PumpAction::Exit)),
    }
}

/// Takes the new requests into the queue, then works through it in order: each
/// request is worked on until it is finished, and the pump stops for this frame
/// at the first one that is not. Returns the work for the application to do.
pub fn pump_ready_queue(
    rq: &mut ReadyQueue,
    incoming: &mut VecDeque<ExtcmdRequest>,
    world: &PumpWorld,
) -> (actions: Vec<PumpAction>)
    ensures
        ({
            let r = pump_spec(
                old(rq).queue@ + old(incoming)@,
                old(rq).current,
                old(rq).next_ticket,
                *world,
            );
            &&& final(rq).queue@ == r.0
            &&& final(rq).current == r.1
            &&& final(rq).next_ticket == r.2
            &&& actions@ == r.3
        }),
        final(incoming)@ == Seq::<ExtcmdRequest>::empty(),
{
    rq.queue.append(incoming);
    let ghost target = pump_spec(rq.queue@, rq.current, rq.next_ticket, *world);
    let mut actions: Vec<PumpAction> = Vec::new();
    loop
        invariant
            incoming@ == Seq::<ExtcmdRequest>::empty(),
            target == pump_spec(
                old(rq).queue@ + old(incoming)@,
                old(rq).current,
                old(rq).next_ticket,
                *world,
            ),
            ({
                let r = pump_spec(rq.queue@, rq.current, rq.next_ticket, *world);
                &&& target.0 == r.0
                &&& target.1 == r.1
                &&& target.2 == r.2
                &&& target.3 == actions@ + r.3
            }),
        decreases rq.queue@.len(), if rq.current is Some {
            1int
        } else {
            0int
        },
    {
        if rq.current.is_none() {
            let ghost q_before = rq.queue@;
            match rq.queue.pop_front() {
                Some(item) => {
                    rq.current = Some(item);
                    assert(rq.queue@ =~= q_before.drop_first());
                    assert(pump_spec(q_before, None, rq.next_ticket, *world) == pump_spec(
                        rq.queue@,
                        Some(item),
                        rq.next_ticket,
                        *world,
                    ));
                },
                None => {
                    proof {
                        assert(actions@ + Seq::<PumpAction>::empty() =~= actions@);
                    }
                    return actions;
                },
            }
        }
        let ghost q0 = rq.queue@;
        let ghost c0 = rq.current;
        let ghost t0 = rq.next_ticket;
        let ghost acts0 = actions@;
        let item = match rq.current.take() {
            Some(item) => item,
            None => {
                return actions;
            },
        };
        let ghost s = pump_step(item, *world, t0);
        assert(c0 == Some(item));
        let ghost whole = pump_spec(q0, c0, t0, *world);
        assert(target.3 == acts0 + whole.3);
        assert(s.done ==> whole == ({
            let r = pump_spec(q0, None, s.ticket, *world);
            (r.0, r.1, r.2, step_actions(s) + r.3)
        }));
        assert(!s.done ==> whole == (q0, s.current, s.ticket, step_actions(s)));
        let (done, next, ticket, action) = step_request(item, world, rq.next_ticket);
        rq.next_ticket = ticket;
        match action {
            Some(a) => {
                actions.push(a);
            },
            None => {},
        }
        assert(actions@ =~= acts0 + step_actions(s));
        if !done {
            rq.current = next;
            proof {
                assert(actions@ + Seq::<PumpAction>::empty() =~= actions@);
            }
            return actions;
        }
        proof {
            let r = pump_spec(q0, None, s.ticket, *world);
            assert(acts0 + (step_actions(s) + r.3) =~= actions@ + r.3);
        }
    }
}

/// The pump works through the requests strictly in order: what is left of the
/// queue is its tail (no request is skipped, reordered or seen twice), and the
/// pump stops early only at a request it has not finished, which it keeps as
/// the one to work on next frame.
pub proof fn lemma_pump_in_order(queue: Seq<ExtcmdRequest>, current: Option<ExtcmdRequest>, ticket: u64, w: PumpWorld)
    ensures
        pump_spec(queue, current, ticket, w).0.len() <= queue.len(),
        pump_spec(queue, current, ticket, w).0 == queue.subrange(
            queue.len() - pump_spec(queue, current, ticket, w).0.len(),
            queue.len() as int,
        ),
        pump_spec(queue, current, ticket, w).1 is None ==> pump_spec(queue, current, ticket, w).0.len() == 0,
    decreases queue.len(), if current is Some {
        1int
    } else {
        0int
    },
{
    match current {
        None => {
            if queue.len() == 0 {
                assert(queue.subrange(0, 0) =~= queue);
            } else {
                let rest = queue.drop_first();
                lemma_pump_in_order(rest, Some(queue[0]), ticket, w);
                let r = pump_spec(rest, Some(queue[0]), ticket, w);
                assert(rest.subrange(rest.len() - r.0.len(), rest.len() as int) =~= queue.subrange(
                    queue.len() - r.0.len(),
                    queue.len() as int,
                ));
            }
        },
        Some(item) => {
            let st = pump_step(item, w, ticket);
            if st.done {
                lemma_pump_in_order(queue, None, st.ticket, w);
            } else {
                assert(queue.subrange(0, queue.len() as int) =~= queue);
            }
        },
    }
}

/// While the cart is not ready, a pending wait holds up the whole queue: the
/// pump does nothing and asks for nothing.
pub proof fn lemma_wait_blocks_queue(queue: Seq<ExtcmdRequest>, ticket: u64, w: PumpWorld)
    requires
        !w.run_ready,
    ensures
        pump_spec(queue, Some(ExtcmdRequest::WaitTilReady), ticket, w) == (
            queue,
            Some(ExtcmdRequest::WaitTilReady),
            ticket,
            Seq::<PumpAction>::empty(),
        ),
{
}

/// Once the cart is ready, a shutdown behind the wait is reached: the pump
/// ends with an exit when nothing else is queued.
pub proof fn lemma_shutdown_after_ready(ticket: u64, w: PumpWorld)
    requires
        w.run_ready,
    ensures
        pump_spec(seq![ExtcmdRequest::Shutdown], Some(ExtcmdRequest::WaitTilReady), ticket, w) == (
            Seq::<ExtcmdRequest>::empty(),
            None::<ExtcmdRequest>,
            ticket,
            seq![PumpAction::Exit],
        ),
{
    let q = seq![ExtcmdRequest::Shutdown];
    assert(q.drop_first() =~= Seq::<ExtcmdRequest>::empty());
    let r2 = pump_spec(q.drop_first(), None, ticket, w);
    assert(r2 == (Seq::<ExtcmdRequest>::empty(), None::<ExtcmdRequest>, ticket, Seq::<PumpAction>::empty()));
    let r1 = pump_spec(q.drop_first(), Some(ExtcmdRequest::Shutdown), ticket, w);
    assert(r1.3 =~= seq![PumpAction::Exit]);
    let r0 = pump_spec(q, None, ticket, w);
    assert(r0 == r1);
    assert(Seq::<PumpAction>::empty() + r0.3 =~= seq![PumpAction::Exit]);
}

/// What `extcmd` asks of the application.
#[derive(Debug)]
pub enum ExtcmdAction {
    /// Nothing more (`set_filename`).
    Nothing,
    /// Queue a screenshot into the capture file of this name.
    Screen(String),
    /// Start recording audio.
    AudioRecord,
    /// Stop recording and save the audio into the capture file of this name.
    AudioEnd(String),
    /// Pause the cart and queue a shutdown.
    Shutdown,
    /// The command is not implemented: warn.
    NotImplemented,
}

/// The kind of capture file.
#[derive(Debug, Clone, Copy, PartialEq, Eq, Structural)]
pub enum CaptureKind {
    Png,
    Wav,
}

/// The file extension of a capture kind.
pub open spec fn capture_ext(kind: CaptureKind) -> Seq<char> {
    match kind {
        CaptureKind::Png => seq!['p', 'n', 'g'],
        CaptureKind::Wav => seq!['w', 'a', 'v'],
    }
}

/// The characters of the capture file's stem: the chosen file name, else `nano9`.
pub open spec fn capture_stem(stem: Option<String>) -> Seq<char> {
    match stem {
        Some(s) => s@,
        None => seq!['n', 'a', 'n', 'o', '9'],
    }
}

/// The name of a capture file: the stem, a dot and the extension.
pub fn capture_file_name(stem: &Option<String>, kind: CaptureKind) -> (r: String)
    ensures
        r@ == capture_stem(*stem) + seq!['.'] + capture_ext(kind),
{
    let mut name = match stem {
        Some(s) => s.clone(),
        None => {
            let mut d = String::new();
            string_push(&mut d, 'n');
            string_push(&mut d, 'a');
            string_push(&mut d, 'n');
            string_push(&mut d, 'o');
            string_push(&mut d, '9');
            d
        },
    };
    let ghost base = name@;
    string_push(&mut name, '.');
    match kind {
        CaptureKind::Png => {
            string_push(&mut name, 'p');
            string_push(&mut name, 'n');
            string_push(&mut name, 'g');
        },
        CaptureKind::Wav => {
            string_push(&mut name, 'w');
            string_push(&mut name, 'a');
            string_push(&mut name, 'v');
        },
    }
    assert(name@ =~= base + seq!['.'] + capture_ext(kind));
    name
}

/// Whether the text is exactly `word`.
pub(crate) fn is_word(text: &str, word: &str) -> (r: bool)
    ensures
        r == (text@ == word@),
{
    text.to_owned() == word.to_owned()
}

/// Pico-8 `extcmd(cmd, [p1])`. Supported: `set_filename` (names the capture
/// files after `p1`), `screen`, `audio_rec`, `audio_end` and `shutdown`.
pub fn extcmd(screenshot_filename: &mut Option<String>, cmd: &str, p1: Option<&str>) -> (r:
    ExtcmdAction)
    ensures
        cmd@ == "set_filename"@ ==> r is Nothing && match p1 {
            Some(name) => (*final(screenshot_filename) matches Some(f) && f@ == name@),
            None => *final(screenshot_filename) == *old(screenshot_filename),
        },
        cmd@ != "set_filename"@ ==> *final(screenshot_filename) == *old(screenshot_filename),
        cmd@ == "screen"@ ==> (r matches ExtcmdAction::Screen(f) && f@ == capture_stem(
            *old(screenshot_filename),
        ) + seq!['.'] + capture_ext(CaptureKind::Png)),
        cmd@ == "audio_rec"@ ==> r is AudioRecord,
        cmd@ == "audio_end"@ ==> (r matches ExtcmdAction::AudioEnd(f) && f@ == capture_stem(
            *old(screenshot_filename),
        ) + seq!['.'] + capture_ext(CaptureKind::Wav)),
        cmd@ == "shutdown"@ ==> r is Shutdown,
        cmd@ != "set_filename"@ && cmd@ != "screen"@ && cmd@ != "audio_rec"@ && cmd@
            != "audio_end"@ && cmd@ != "shutdown"@ ==> r is NotImplemented,
{
    proof {
        reveal_strlit("set_filename");
        reveal_strlit("screen");
        reveal_strlit("audio_rec");
        reveal_strlit("audio_end");
        reveal_strlit("shutdown");
        assert("set_filename"@.len() == 12);
        assert("screen"@.len() == 6);
        assert("audio_rec"@.len() == 9);
        assert("audio_end"@.len() == 9);
        assert("shutdown"@.len() == 8);
        assert("audio_rec"@[6] != "audio_end"@[6]);
    }
    if is_word(cmd, "set_filename") {
        match p1 {
            Some(name) => {
                *screenshot_filename = Some(name.to_owned());
            },
            None => {},
        }
        ExtcmdAction::Nothing
    } else if is_word(cmd, "screen") {
        ExtcmdAction::Screen(capture_file_name(screenshot_filename, CaptureKind::Png))
    } else if is_word(cmd, "audio_rec") {
        ExtcmdAction::AudioRecord
    } else if is_word(cmd, "audio_end") {
        ExtcmdAction::AudioEnd(capture_file_name(screenshot_filename, CaptureKind::Wav))
    } else if is_word(cmd, "shutdown") {
        ExtcmdAction::Shutdown
    } else {
        ExtcmdAction::NotImplemented
    }
}

/// The process exit code of Pico-8 `exit([error])`: success (zero) without an
/// error or with error zero, else the error.
pub fn exit_code(error: Option<u8>) -> (r: u8)
    ensures
        r == match error {
            Some(n) => n,
            None => 0,
        },
{
    match error {
        Some(n) => n,
        None => 0,
    }
}

/// Why a captured screenshot cannot be saved.
#[derive(Debug, Clone, Copy, PartialEq, Eq, Structural)]
pub enum ScreenshotError {
    /// The captured image has no pixel data on the CPU.
    NoData,
    /// The pixel data is shorter than four bytes for each pixel.
    TooSmall { len: usize, width: u32, height: u32 },
}

pub open spec fn min_int(a: int, b: int) -> int {
    if a <= b {
        a
    } else {
        b
    }
}

pub open spec fn max_int(a: int, b: int) -> int {
    if a >= b {
        a
    } else {
        b
    }
}

/// `a - b`, or zero when `b` is larger.
pub open spec fn sub_or_zero(a: int, b: int) -> int {
    if a > b {
        a - b
    } else {
        0
    }
}

/// The part of a `w` by `h` capture that shows the canvas, as `(x, y, width,
/// height)`: the camera's viewport kept inside the capture and at least one
/// pixel large, or the whole capture.
pub open spec fn screenshot_crop(w: int, h: int, viewport: Option<(u32, u32, u32, u32)>) -> (
    int,
    int,
    int,
    int,
) {
    let (cx, cy, cw, ch) = match viewport {
        Some((px, py, sw, sh)) => (
            min_int(px as int, sub_or_zero(w, 1)),
            min_int(py as int, sub_or_zero(h, 1)),
            min_int(max_int(sw as int, 1), w),
            min_int(max_int(sh as int, 1), h),
        ),
        None => (0, 0, w, h),
    };
    (cx, cy, max_int(min_int(cw, sub_or_zero(w, cx)), 1), max_int(min_int(ch, sub_or_zero(h, cy)), 1))
}

/// The byte offset in the capture of the source pixel of canvas pixel `(x, y)`:
/// the crop is scaled to `dw` by `dh` by picking the nearest pixel below.
pub open spec fn screenshot_source(
    w: int,
    h: int,
    viewport: Option<(u32, u32, u32, u32)>,
    dw: int,
    dh: int,
    x: int,
    y: int,
) -> int {
    let (cx, cy, cw, ch) = screenshot_crop(w, h, viewport);
    let sy = cy + y * ch / dh;
    let sx = cx + x * cw / dw;
    (sy * w + sx) * 4
}

/// The RGB bytes of a canvas-sized screenshot cut from a capture of RGBA (or,
/// when `bgra`, BGRA) pixels, row after row.
pub open spec fn screenshot_rgb_bytes(
    data: Seq<u8>,
    w: int,
    h: int,
    bgra: bool,
    viewport: Option<(u32, u32, u32, u32)>,
    canvas: (u32, u32),
) -> Seq<u8> {
    let dw = max_int(canvas.0 as int, 1);
    let dh = max_int(canvas.1 as int, 1);
    Seq::new(
        (dw * dh * 3) as nat,
        |i: int|
            {
                let p = i / 3;
                let k = i % 3;
                let si = screenshot_source(w, h, viewport, dw, dh, p % dw, p / dw);
                data[si + if bgra {
                    2 - k
                } else {
                    k
                }]
            },
    )
}

proof fn lemma_scaled_below(y: int, d: int, c: int)
    requires
        0 <= y < d,
        1 <= c,
    ensures
        0 <= y * c / d < c,
{
    vstd::arithmetic::mul::lemma_mul_strict_inequality(y, d, c);
    vstd::arithmetic::mul::lemma_mul_is_commutative(d, c);
    vstd::arithmetic::div_mod::lemma_multiply_divide_lt(y * c, d, c);
    vstd::arithmetic::mul::lemma_mul_nonnegative(y, c);
    vstd::arithmetic::div_mod::lemma_div_pos_is_pos(y * c, d);
}

proof fn lemma_pixel_index(y: int, x: int, dw: int, k: int)
    requires
        0 <= y,
        0 <= x < dw,
        0 <= k < 3,
    ensures
        ((y * dw + x) * 3 + k) / 3 == y * dw + x,
        ((y * dw + x) * 3 + k) % 3 == k,
        (y * dw + x) / dw == y,
        (y * dw + x) % dw == x,
{
    vstd::arithmetic::div_mod::lemma_fundamental_div_mod_converse((y * dw + x) * 3 + k, 3, y * dw + x, k);
    vstd::arithmetic::div_mod::lemma_fundamental_div_mod_converse(y * dw + x, dw, y, x);
}

/// A viewport that lies inside the capture, saved at its own size, is copied
/// pixel for pixel: canvas pixel `(x, y)` is capture pixel `(px + x, py + y)`,
/// its red, green and blue bytes in order (or read back from blue, green, red
/// when the capture is BGRA).
pub proof fn lemma_screenshot_copies_viewport(
    data: Seq<u8>,
    w: u32,
    h: u32,
    bgra: bool,
    px: u32,
    py: u32,
    sw: u32,
    sh: u32,
    x: int,
    y: int,
    k: int,
)
    requires
        sw >= 1,
        sh >= 1,
        px + sw <= w,
        py + sh <= h,
        0 <= x < sw,
        0 <= y < sh,
        0 <= k < 3,
    ensures
        screenshot_rgb_bytes(data, w as int, h as int, bgra, Some((px, py, sw, sh)), (sw, sh))[(y * sw + x) * 3
            + k] == data[((py + y) * w + px + x) * 4 + if bgra {
            2 - k
        } else {
            k
        }],
{
    let vp = Some((px, py, sw, sh));
    let (cx, cy, cw, ch) = screenshot_crop(w as int, h as int, vp);
    assert(cx == px && cy == py && cw == sw && ch == sh);
    lemma_pixel_index(y, x, sw as int, k);
    vstd::arithmetic::div_mod::lemma_div_multiples_vanish(x, sw as int);
    vstd::arithmetic::div_mod::lemma_div_multiples_vanish(y, sh as int);
    vstd::arithmetic::mul::lemma_mul_is_commutative(x, sw as int);
    vstd::arithmetic::mul::lemma_mul_is_commutative(y, sh as int);
    assert(x * (sw as int) / (sw as int) == x);
    assert(y * (sh as int) / (sh as int) == y);
    assert(0 <= (y * sw + x) * 3 + k < (sw as int) * (sh as int) * 3) by (nonlinear_arith)
        requires 0 <= x < sw, 0 <= y < sh, 0 <= k < 3;
}

/// Cuts the canvas out of a captured screen image and scales it to the canvas
/// size, as RGB bytes: `data` holds the capture's pixels (`None` when it has no
/// CPU data), `w` by `h` of them, RGBA or, when `bgra`, BGRA; `viewport` is the
/// canvas camera's viewport, if it has one.
pub fn screenshot_rgb(
    data: Option<&[u8]>,
    w: u32,
    h: u32,
    bgra: bool,
    viewport: Option<(u32, u32, u32, u32)>,
    canvas: (u32, u32),
) -> (r: Result<Vec<u8>, ScreenshotError>)
    requires
        w > 0,
        h > 0,
        w * h <= u32::MAX,
        ({
            let (cx, cy, cw, ch) = screenshot_crop(w as int, h as int, viewport);
            &&& (max_int(canvas.0 as int, 1) - 1) * cw <= u32::MAX
            &&& (max_int(canvas.1 as int, 1) - 1) * ch <= u32::MAX
        }),
        max_int(canvas.0 as int, 1) * max_int(canvas.1 as int, 1) * 3 <= usize::MAX,
    ensures
        match data {
            None => r == Err::<Vec<u8>, ScreenshotError>(ScreenshotError::NoData),
            Some(d) => if d@.len() < w * h * 4 {
                r == Err::<Vec<u8>, ScreenshotError>(
                    ScreenshotError::TooSmall { len: d@.len() as usize, width: w, height: h },
                )
            } else {
                r matches Ok(rgb) && rgb@ == screenshot_rgb_bytes(
                    d@,
                    w as int,
                    h as int,
                    bgra,
                    viewport,
                    canvas,
                )
            },
        },
{
    let data = match data {
        Some(d) => d,
        None => {
            return Err(ScreenshotError::NoData);
        },
    };
    let n = data.len();
    assert(n <= usize::MAX);
    if (n as u64) < (w as u64) * (h as u64) * 4 {
        return Err(ScreenshotError::TooSmall { len: data.len(), width: w, height: h });
    }
    let ghost crop = screenshot_crop(w as int, h as int, viewport);
    let (cx, cy, cw, ch) = match viewport {
        Some((px, py, sw, sh)) => {
            let sw1 = if sw < 1 {
                1
            } else {
                sw
            };
            let sh1 = if sh < 1 {
                1
            } else {
                sh
            };
            (
                if px < w - 1 {
                    px
                } else {
                    w - 1
                },
                if py < h - 1 {
                    py
                } else {
                    h - 1
                },
                if sw1 < w {
                    sw1
                } else {
                    w
                },
                if sh1 < h {
                    sh1
                } else {
                    h
                },
            )
        },
        None => (0, 0, w, h),
    };
    let cw = if cw < w - cx {
        cw
    } else {
        w - cx
    };
    let cw = if cw < 1 {
        1
    } else {
        cw
    };
    let ch = if ch < h - cy {
        ch
    } else {
        h - cy
    };
    let ch = if ch < 1 {
        1
    } else {
        ch
    };
    assert(crop == (cx as int, cy as int, cw as int, ch as int));
    let dw: u32 = if canvas.0 < 1 {
        1
    } else {
        canvas.0
    };
    let dh: u32 = if canvas.1 < 1 {
        1
    } else {
        canvas.1
    };
    let ghost target = screenshot_rgb_bytes(data@, w as int, h as int, bgra, viewport, canvas);
    let mut rgb: Vec<u8> = Vec::new();
    let mut y: u32 = 0;
    while y < dh
        invariant
            0 <= y <= dh,
            dw >= 1,
            dh >= 1,
            dw == max_int(canvas.0 as int, 1),
            dh == max_int(canvas.1 as int, 1),
            crop == (cx as int, cy as int, cw as int, ch as int),
            crop == screenshot_crop(w as int, h as int, viewport),
            1 <= cw <= w - cx,
            1 <= ch <= h - cy,
            w > 0,
            h > 0,
            w * h <= u32::MAX,
            (dw - 1) * cw <= u32::MAX,
            (dh - 1) * ch <= u32::MAX,
            data@.len() >= w * h * 4,
            data@.len() <= usize::MAX,
            target == screenshot_rgb_bytes(data@, w as int, h as int, bgra, viewport, canvas),
            dw * dh * 3 <= usize::MAX,
            rgb@.len() == y * dw * 3,
            forall|i: int| 0 <= i < rgb@.len() ==> #[trigger] rgb@[i] == target[i],
        decreases dh - y,
    {
        proof {
            lemma_scaled_below(y as int, dh as int, ch as int);
            assert(y * ch <= (dh - 1) * ch) by (nonlinear_arith)
                requires
                    y <= dh - 1,
                    ch >= 0,
            ;
        }
        let sy = cy + y * ch / dh;
        let mut x: u32 = 0;
        while x < dw
            invariant
                0 <= y < dh,
                0 <= x <= dw,
                dw >= 1,
                dh >= 1,
                dw == max_int(canvas.0 as int, 1),
                dh == max_int(canvas.1 as int, 1),
                crop == (cx as int, cy as int, cw as int, ch as int),
                crop == screenshot_crop(w as int, h as int, viewport),
                1 <= cw <= w - cx,
                1 <= ch <= h - cy,
                w > 0,
                h > 0,
                w * h <= u32::MAX,
                (dw - 1) * cw <= u32::MAX,
                sy == cy + (y * ch) as int / (dh as int),
                sy < h,
                data@.len() >= w * h * 4,
                data@.len() <= usize::MAX,
            data@.len() <= usize::MAX,
                target == screenshot_rgb_bytes(data@, w as int, h as int, bgra, viewport, canvas),
                dw * dh * 3 <= usize::MAX,
                rgb@.len() == (y * dw + x) * 3,
                forall|i: int| 0 <= i < rgb@.len() ==> #[trigger] rgb@[i] == target[i],
            decreases dw - x,
        {
            proof {
                lemma_scaled_below(x as int, dw as int, cw as int);
                assert(x * cw <= (dw - 1) * cw) by (nonlinear_arith)
                    requires
                        x <= dw - 1,
                        cw >= 0,
                ;
            }
            let sx = cx + x * cw / dw;
            proof {
                assert(sy * w + sx <= w * h - 1) by (nonlinear_arith)
                    requires
                        0 <= sy <= h - 1,
                        0 <= sx <= w - 1,
                        w >= 1,
                ;
                assert((sy * w + sx) * 4 + 3 < w * h * 4) by (nonlinear_arith)
                    requires
                        sy * w + sx <= w * h - 1,
                ;
                assert((y * dw + x + 1) * 3 <= dw * dh * 3) by (nonlinear_arith)
                    requires
                        0 <= y <= dh - 1,
                        0 <= x <= dw - 1,
                ;
            }
            let si = ((sy * w + sx) as usize) * 4;
            let ghost base = rgb@.len() as int;
            if bgra {
                rgb.push(data[si + 2]);
                rgb.push(data[si + 1]);
                rgb.push(data[si]);
            } else {
                rgb.push(data[si]);
                rgb.push(data[si + 1]);
                rgb.push(data[si + 2]);
            }
            proof {
                assert forall|k: int| 0 <= k < 3 implies #[trigger] rgb@[base + k] == target[base
                    + k] by {
                    lemma_pixel_index(y as int, x as int, dw as int, k);
                    assert(base + k == (y * dw + x) * 3 + k);
                }
                assert forall|i: int| 0 <= i < rgb@.len() implies #[trigger] rgb@[i]
                    == target[i] by {
                    if i >= base {
                        assert(rgb@[base + (i - base)] == target[base + (i - base)]);
                    }
                }
                assert((y * dw + (x + 1)) * 3 == (y * dw + x) * 3 + 3) by (nonlinear_arith);
            }
            x = x + 1;
        }
        proof {
            assert((y * dw + dw) * 3 == (y + 1) * dw * 3) by (nonlinear_arith);
        }
        y = y + 1;
    }
    proof {
        assert(dh * dw * 3 == dw * dh * 3) by (nonlinear_arith);
        assert(rgb@ =~= target);
    }
    Ok(rgb)
}

/// The registrations of the system commands: the cart arguments, the ready
/// queue, the request messages, the startup observer and systems (the headless
/// startup request only without a window), and the script functions.
pub fn plugin(app: &mut AppPlan)
    ensures
        final(app).same_features(*old(app)),
        final(app).steps@ == old(app).steps@ + seq![
            Setup::Resource("CartArgs"),
            Setup::Resource("ReadyQueue"),
            Setup::Message("ExtcmdRequest"),
            Setup::Message("LoadCartRequest"),
            Setup::Observer("queue_startup_window"),
            Setup::System(Schedule::Last, "pump_ready_queue"),
            Setup::System(Schedule::Update, "handle_load_cart"),
        ] + (if old(app).headless {
            seq![Setup::System(Schedule::Startup, "queue_startup_headless")]
        } else {
            Seq::empty()
        }) + script_steps(
            old(app).scripting,
            seq!["exit", "time", "delta_time", "extcmd", "_n9_load"],
        ),
{
    let ghost s0 = app.steps@;
    app.add(Setup::Resource("CartArgs"));
    app.add(Setup::Resource("ReadyQueue"));
    app.add(Setup::Message("ExtcmdRequest"));
    app.add(Setup::Message("LoadCartRequest"));
    app.add(Setup::Observer("queue_startup_window"));
    app.add(Setup::System(Schedule::Last, "pump_ready_queue"));
    app.add(Setup::System(Schedule::Update, "handle_load_cart"));
    let ghost s1 = app.steps@;
    if app.headless {
        app.add(Setup::System(Schedule::Startup, "queue_startup_headless"));
    }
    let ghost s2 = app.steps@;
    let names: [&'static str; 5] = ["exit", "time", "delta_time", "extcmd", "_n9_load"];
    assert(names@ =~= seq!["exit", "time", "delta_time", "extcmd", "_n9_load"]);
    let scripting = app.scripting;
    add_script_functions(app, scripting, &names);
    proof {
        if old(app).headless {
            assert(s2 =~= s1.push(Setup::System(Schedule::Startup, "queue_startup_headless")));
        } else {
            assert(s2 =~= s1 + Seq::<Setup>::empty());
        }
    }
}

} // verus!
