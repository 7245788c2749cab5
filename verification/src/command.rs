//! Typed command identifiers and the per-frame command queue that widgets
//! emit into.
use vstd::prelude::*;
use std::marker::PhantomData;
use std::sync::atomic::{AtomicU64, Ordering};
use crate::binding::BindingId;

verus! {

/// A typed command identifier.
#[derive(Debug, PartialEq, Eq, Hash)]
pub struct CommandId<T> {
    raw: u64,
    _marker: PhantomData<T>,
}

impl<T> Clone for CommandId<T> {
    fn clone(&self) -> (r: Self)
        ensures
            r.spec_raw() == self.spec_raw(),
    {
        CommandId { raw: self.raw, _marker: PhantomData }
    }
}

impl<T> Copy for CommandId<T> {
}

impl<T> CommandId<T> {
    pub closed spec fn spec_raw(self) -> u64 {
        self.raw
    }

    pub fn from_raw(raw: u64) -> (r: Self)
        ensures
            r.spec_raw() == raw,
    {
        CommandId { raw, _marker: PhantomData }
    }

    pub fn raw(self) -> (r: u64)
        ensures
            r == self.spec_raw(),
    {
        self.raw
    }

    /// The same number without the payload type.
    pub fn erase(self) -> (r: CommandId<()>)
        ensures
            r.spec_raw() == self.spec_raw(),
    {
        CommandId::from_raw(self.raw)
    }
}

/// Hands out command identifiers numbered from 1, shared across threads.
#[derive(Debug, Default)]
pub struct CommandIds {
    next: AtomicU64,
}

impl CommandIds {
    pub fn new() -> Self {
        CommandIds { next: AtomicU64::new(1) }
    }

    /// The next number; concurrent callers each get a distinct one until
    /// the counter wraps.
    pub fn allocate<T>(&self) -> CommandId<T> {
        CommandId::from_raw(self.next.fetch_add(1, Ordering::Relaxed))
    }
}

/// Identifies a widget in a frame.
#[derive(Debug, Clone, Copy, PartialEq, Eq, Hash, Structural)]
pub struct WidgetId(pub usize);

/// The value a command carries. An `F32` payload is held as the bits of the
/// `f32`.
#[derive(Debug, Clone, PartialEq)]
pub enum CommandPayload {
    Empty,
    Bool(bool),
    F32(u32),
    I32(i32),
    U32(u32),
    Index(usize),
    Text(String),
    BindingU64(u64),
}

impl CommandPayload {
    pub fn as_bool(self) -> (r: Option<bool>)
        ensures
            r == match self {
                CommandPayload::Bool(v) => Some(v),
                _ => None::<bool>,
            },
    {
        match self {
            CommandPayload::Bool(value) => Some(value),
            _ => None,
        }
    }

    /// The bits of an `F32` payload.
    pub fn as_f32_bits(self) -> (r: Option<u32>)
        ensures
            r == match self {
                CommandPayload::F32(v) => Some(v),
                _ => None::<u32>,
            },
    {
        match self {
            CommandPayload::F32(value) => Some(value),
            _ => None,
        }
    }

    pub fn as_i32(self) -> (r: Option<i32>)
        ensures
            r == match self {
                CommandPayload::I32(v) => Some(v),
                _ => None::<i32>,
            },
    {
        match self {
            CommandPayload::I32(value) => Some(value),
            _ => None,
        }
    }

    pub fn as_u32(self) -> (r: Option<u32>)
        ensures
            r == match self {
                CommandPayload::U32(v) => Some(v),
                _ => None::<u32>,
            },
    {
        match self {
            CommandPayload::U32(value) => Some(value),
            _ => None,
        }
    }

    pub fn as_text(&self) -> (r: Option<&str>)
        ensures
            match self {
                CommandPayload::Text(t) => r matches Some(s) && s@ == t@,
                _ => r is None,
            },
    {
        match self {
            CommandPayload::Text(value) => Some(value.as_str()),
            _ => None,
        }
    }
}

/// A command emitted by a widget.
#[derive(Debug, Clone, PartialEq)]
pub struct UiCommand {
    pub id: CommandId<()>,
    pub widget: Option<WidgetId>,
    pub payload: CommandPayload,
}

impl UiCommand {
    pub fn new(id: CommandId<()>) -> (r: Self)
        ensures
            r.id == id,
            r.widget is None,
            r.payload == CommandPayload::Empty,
    {
        UiCommand { id, widget: None, payload: CommandPayload::Empty }
    }

    pub fn widget(self, widget: WidgetId) -> (r: Self)
        ensures
            r == (UiCommand { widget: Some(widget), ..self }),
    {
        let mut s = self;
        s.widget = Some(widget);
        s
    }

    pub fn payload(self, payload: CommandPayload) -> (r: Self)
        ensures
            r == (UiCommand { payload, ..self }),
    {
        let mut s = self;
        s.payload = payload;
        s
    }
}

#[derive(Debug, Clone, Copy, PartialEq, Eq, Structural)]
pub struct CommandStats {
    pub emitted: usize,
    pub drained: usize,
    pub capacity_growths: usize,
}

impl Default for CommandStats {
    fn default() -> (r: Self)
        ensures
            r == (CommandStats { emitted: 0, drained: 0, capacity_growths: 0 }),
    {
        CommandStats { emitted: 0, drained: 0, capacity_growths: 0 }
    }
}

/// The commands emitted during a frame, in emission order.
#[derive(Debug, Clone)]
pub struct CommandQueue {
    commands: Vec<UiCommand>,
    stats: CommandStats,
}

impl View for CommandQueue {
    type V = Seq<UiCommand>;

    closed spec fn view(&self) -> Seq<UiCommand> {
        self.commands@
    }
}

impl CommandQueue {
    pub closed spec fn spec_stats(&self) -> CommandStats {
        self.stats
    }

    /// The counters can take one more emitted command.
    pub open spec fn can_emit(&self) -> bool {
        &&& self.spec_stats().emitted < usize::MAX
        &&& self.spec_stats().capacity_growths < usize::MAX
    }

    /// An empty queue with room for 32 commands.
    pub fn new() -> (r: Self)
        ensures
            r@ == Seq::<UiCommand>::empty(),
            r.spec_stats() == (CommandStats { emitted: 0, drained: 0, capacity_growths: 0 }),
    {
        let capacity: usize = if crate::scratch::fits_in_allocation::<UiCommand>(32) { 32 } else { 0 };
        Self::with_capacity(capacity)
    }

    pub fn with_capacity(capacity: usize) -> (r: Self)
        requires
            capacity * vstd::layout::size_of::<UiCommand>() <= isize::MAX,
        ensures
            r@ == Seq::<UiCommand>::empty(),
            r.spec_stats() == (CommandStats { emitted: 0, drained: 0, capacity_growths: 0 }),
    {
        CommandQueue { commands: Vec::with_capacity(capacity), stats: CommandStats::default() }
    }

    /// Drops the queued commands, counting them as drained.
    pub fn clear(&mut self)
        requires
            old(self).spec_stats().drained + old(self)@.len() <= usize::MAX,
        ensures
            final(self)@ == Seq::<UiCommand>::empty(),
            final(self).spec_stats() == (CommandStats {
                drained: (old(self).spec_stats().drained + old(self)@.len()) as usize,
                ..old(self).spec_stats()
            }),
    {
        self.stats.drained = self.stats.drained + self.commands.len();
        self.commands.clear();
    }

    /// Appends `command`; a push into a full allocation counts a growth.
    pub fn emit(&mut self, command: UiCommand)
        requires
            old(self).can_emit(),
        ensures
            final(self)@ == old(self)@.push(command),
            final(self).spec_stats().emitted == old(self).spec_stats().emitted + 1,
            final(self).spec_stats().drained == old(self).spec_stats().drained,
            final(self).spec_stats().capacity_growths == old(self).spec_stats().capacity_growths
                || final(self).spec_stats().capacity_growths == old(self).spec_stats().capacity_growths + 1,
    {
        if self.commands.len() == crate::alloc_ops::vec_capacity(&self.commands) {
            self.stats.capacity_growths = self.stats.capacity_growths + 1;
        }
        self.commands.push(command);
        self.stats.emitted = self.stats.emitted + 1;
    }

    /// Emits a command with no payload.
    pub fn emit_id<T>(&mut self, id: CommandId<T>)
        requires
            old(self).can_emit(),
        ensures
            final(self)@.len() == old(self)@.len() + 1,
            final(self)@.drop_last() == old(self)@,
            final(self)@.last().id.spec_raw() == id.spec_raw(),
            final(self)@.last().widget is None,
            final(self)@.last().payload == CommandPayload::Empty,
            final(self).spec_stats().emitted == old(self).spec_stats().emitted + 1,
    {
        self.emit(UiCommand::new(id.erase()));
    }

    pub fn emit_bool<T>(&mut self, id: CommandId<T>, value: bool)
        requires
            old(self).can_emit(),
        ensures
            final(self)@.drop_last() == old(self)@,
            final(self)@.len() == old(self)@.len() + 1,
            final(self)@.last().id.spec_raw() == id.spec_raw(),
            final(self)@.last().widget is None,
            final(self)@.last().payload == CommandPayload::Bool(value),
            final(self).spec_stats().emitted == old(self).spec_stats().emitted + 1,
    {
        self.emit(UiCommand::new(id.erase()).payload(CommandPayload::Bool(value)));
    }

    /// Emits the `f32` whose bits are `bits`.
    pub fn emit_f32_bits<T>(&mut self, id: CommandId<T>, bits: u32)
        requires
            old(self).can_emit(),
        ensures
            final(self)@.drop_last() == old(self)@,
            final(self)@.len() == old(self)@.len() + 1,
            final(self)@.last().id.spec_raw() == id.spec_raw(),
            final(self)@.last().widget is None,
            final(self)@.last().payload == CommandPayload::F32(bits),
            final(self).spec_stats().emitted == old(self).spec_stats().emitted + 1,
    {
        self.emit(UiCommand::new(id.erase()).payload(CommandPayload::F32(bits)));
    }

    pub fn emit_i32<T>(&mut self, id: CommandId<T>, value: i32)
        requires
            old(self).can_emit(),
        ensures
            final(self)@.drop_last() == old(self)@,
            final(self)@.len() == old(self)@.len() + 1,
            final(self)@.last().id.spec_raw() == id.spec_raw(),
            final(self)@.last().widget is None,
            final(self)@.last().payload == CommandPayload::I32(value),
            final(self).spec_stats().emitted == old(self).spec_stats().emitted + 1,
    {
        self.emit(UiCommand::new(id.erase()).payload(CommandPayload::I32(value)));
    }

    pub fn emit_u32<T>(&mut self, id: CommandId<T>, value: u32)
        requires
            old(self).can_emit(),
        ensures
            final(self)@.drop_last() == old(self)@,
            final(self)@.len() == old(self)@.len() + 1,
            final(self)@.last().id.spec_raw() == id.spec_raw(),
            final(self)@.last().widget is None,
            final(self)@.last().payload == CommandPayload::U32(value),
            final(self).spec_stats().emitted == old(self).spec_stats().emitted + 1,
    {
        self.emit(UiCommand::new(id.erase()).payload(CommandPayload::U32(value)));
    }

    pub fn emit_text<T>(&mut self, id: CommandId<T>, value: String)
        requires
            old(self).can_emit(),
        ensures
            final(self)@.drop_last() == old(self)@,
            final(self)@.len() == old(self)@.len() + 1,
            final(self)@.last().id.spec_raw() == id.spec_raw(),
            final(self)@.last().widget is None,
            final(self)@.last().payload == CommandPayload::Text(value),
            final(self).spec_stats().emitted == old(self).spec_stats().emitted + 1,
    {
        self.emit(UiCommand::new(id.erase()).payload(CommandPayload::Text(value)));
    }

    /// Emits the raw number of `binding`.
    pub fn emit_binding<T>(&mut self, id: CommandId<T>, binding: BindingId<T>)
        requires
            old(self).can_emit(),
        ensures
            final(self)@.drop_last() == old(self)@,
            final(self)@.len() == old(self)@.len() + 1,
            final(self)@.last().id.spec_raw() == id.spec_raw(),
            final(self)@.last().widget is None,
            final(self)@.last().payload == CommandPayload::BindingU64(binding.spec_raw()),
            final(self).spec_stats().emitted == old(self).spec_stats().emitted + 1,
    {
        self.emit(UiCommand::new(id.erase()).payload(CommandPayload::BindingU64(binding.raw())));
    }

    pub fn commands(&self) -> (r: &[UiCommand])
        ensures
            r@ == self@,
    {
        self.commands.as_slice()
    }

    pub fn is_empty(&self) -> (r: bool)
        ensures
            r == (self@.len() == 0),
    {
        self.commands.len() == 0
    }

    pub fn len(&self) -> (r: usize)
        ensures
            r == self@.len(),
    {
        self.commands.len()
    }

    /// The allocation's capacity, never below the length.
    pub fn capacity(&self) -> (r: usize)
        ensures
            r >= self@.len(),
    {
        crate::alloc_ops::vec_capacity(&self.commands)
    }

    pub fn stats(&self) -> (r: &CommandStats)
        ensures
            *r == self.spec_stats(),
    {
        &self.stats
    }

    /// Moves every queued command to the end of `out`; everything emitted so
    /// far counts as drained.
    pub fn drain_to(&mut self, out: &mut Vec<UiCommand>)
        ensures
            final(out)@ == old(out)@ + old(self)@,
            final(self)@ == Seq::<UiCommand>::empty(),
            final(self).spec_stats() == (CommandStats {
                drained: old(self).spec_stats().emitted,
                ..old(self).spec_stats()
            }),
    {
        out.append(&mut self.commands);
        self.stats.drained = self.stats.emitted;
    }
}

impl Default for CommandQueue {
    fn default() -> (r: Self)
        ensures
            r@ == Seq::<UiCommand>::empty(),
            r.spec_stats() == (CommandStats { emitted: 0, drained: 0, capacity_growths: 0 }),
    {
        Self::new()
    }
}

/// What a widget update asked for.
#[derive(Debug, Clone, Copy, PartialEq, Eq, Structural)]
pub struct UpdateFlags {
    pub dirty: bool,
    pub layout_dirty: bool,
    pub text_dirty: bool,
    pub needs_redraw: bool,
}

impl Default for UpdateFlags {
    fn default() -> (r: Self)
        ensures
            r == (UpdateFlags { dirty: false, layout_dirty: false, text_dirty: false, needs_redraw: false }),
    {
        UpdateFlags { dirty: false, layout_dirty: false, text_dirty: false, needs_redraw: false }
    }
}

impl UpdateFlags {
    pub fn any(self) -> (r: bool)
        ensures
            r == (self.dirty || self.layout_dirty || self.text_dirty || self.needs_redraw),
    {
        self.dirty || self.layout_dirty || self.text_dirty || self.needs_redraw
    }

    pub fn mark_dirty(&mut self)
        ensures
            *final(self) == (UpdateFlags { dirty: true, needs_redraw: true, ..*old(self) }),
    {
        self.dirty = true;
        self.needs_redraw = true;
    }

    pub fn mark_layout(&mut self)
        ensures
            *final(self) == (UpdateFlags { layout_dirty: true, needs_redraw: true, ..*old(self) }),
    {
        self.layout_dirty = true;
        self.needs_redraw = true;
    }

    pub fn mark_text(&mut self)
        ensures
            *final(self) == (UpdateFlags { text_dirty: true, needs_redraw: true, ..*old(self) }),
    {
        self.text_dirty = true;
        self.needs_redraw = true;
    }
}

/// Any mark leaves the flags asking for a redraw.
pub proof fn lemma_marks_request_redraw(f: UpdateFlags)
    ensures
        (UpdateFlags { dirty: true, needs_redraw: true, ..f }).needs_redraw,
        (UpdateFlags { layout_dirty: true, needs_redraw: true, ..f }).needs_redraw,
        (UpdateFlags { text_dirty: true, needs_redraw: true, ..f }).needs_redraw,
{
}

/// What a widget's update sees: the frame's command queue and its flags.
pub struct UpdateCtx<'a> {
    commands: &'a mut CommandQueue,
    flags: UpdateFlags,
    widget: Option<WidgetId>,
}

impl<'a> UpdateCtx<'a> {
    pub closed spec fn spec_queue(&self) -> CommandQueue {
        *self.commands
    }

    pub closed spec fn spec_flags(&self) -> UpdateFlags {
        self.flags
    }

    pub closed spec fn spec_widget(&self) -> Option<WidgetId> {
        self.widget
    }

    pub fn new(commands: &'a mut CommandQueue) -> (r: Self)
        ensures
            r.spec_queue() == *old(commands),
            r.spec_flags() == (UpdateFlags { dirty: false, layout_dirty: false, text_dirty: false, needs_redraw: false }),
            r.spec_widget() is None,
    {
        UpdateCtx { commands, flags: UpdateFlags::default(), widget: None }
    }

    /// Emits a command tagged with the context's widget, and marks the
    /// update dirty.
    pub fn emit<T>(&mut self, id: CommandId<T>, payload: CommandPayload)
        requires
            old(self).spec_queue().can_emit(),
        ensures
            final(self).spec_queue()@.drop_last() == old(self).spec_queue()@,
            final(self).spec_queue()@.len() == old(self).spec_queue()@.len() + 1,
            final(self).spec_queue()@.last().id.spec_raw() == id.spec_raw(),
            final(self).spec_queue()@.last().widget == old(self).spec_widget(),
            final(self).spec_queue()@.last().payload == payload,
            final(self).spec_queue().spec_stats().emitted == old(self).spec_queue().spec_stats().emitted + 1,
            final(self).spec_flags() == (UpdateFlags { dirty: true, needs_redraw: true, ..old(self).spec_flags() }),
            final(self).spec_widget() == old(self).spec_widget(),
    {
        let mut command = UiCommand::new(id.erase()).payload(payload);
        match self.widget {
            Some(widget) => {
                command = command.widget(widget);
            },
            None => {},
        }
        self.commands.emit(command);
        self.flags.mark_dirty();
    }

    pub fn emit_id<T>(&mut self, id: CommandId<T>)
        requires
            old(self).spec_queue().can_emit(),
        ensures
            final(self).spec_queue()@.drop_last() == old(self).spec_queue()@,
            final(self).spec_queue()@.last().widget == old(self).spec_widget(),
            final(self).spec_widget() == old(self).spec_widget(),
            final(self).spec_queue()@.len() == old(self).spec_queue()@.len() + 1,
            final(self).spec_queue()@.last().payload == CommandPayload::Empty,
            final(self).spec_queue()@.last().id.spec_raw() == id.spec_raw(),
            final(self).spec_flags() == (UpdateFlags { dirty: true, needs_redraw: true, ..old(self).spec_flags() }),
    {
        self.emit(id, CommandPayload::Empty);
    }

    pub fn emit_bool<T>(&mut self, id: CommandId<T>, value: bool)
        requires
            old(self).spec_queue().can_emit(),
        ensures
            final(self).spec_queue()@.drop_last() == old(self).spec_queue()@,
            final(self).spec_queue()@.last().id.spec_raw() == id.spec_raw(),
            final(self).spec_queue()@.last().widget == old(self).spec_widget(),
            final(self).spec_widget() == old(self).spec_widget(),
            final(self).spec_queue()@.len() == old(self).spec_queue()@.len() + 1,
            final(self).spec_queue()@.last().payload == CommandPayload::Bool(value),
            final(self).spec_flags() == (UpdateFlags { dirty: true, needs_redraw: true, ..old(self).spec_flags() }),
    {
        self.emit(id, CommandPayload::Bool(value));
    }

    /// Emits the `f32` whose bits are `bits`.
    pub fn emit_f32_bits<T>(&mut self, id: CommandId<T>, bits: u32)
        requires
            old(self).spec_queue().can_emit(),
        ensures
            final(self).spec_queue()@.drop_last() == old(self).spec_queue()@,
            final(self).spec_queue()@.last().id.spec_raw() == id.spec_raw(),
            final(self).spec_queue()@.last().widget == old(self).spec_widget(),
            final(self).spec_widget() == old(self).spec_widget(),
            final(self).spec_queue()@.len() == old(self).spec_queue()@.len() + 1,
            final(self).spec_queue()@.last().payload == CommandPayload::F32(bits),
            final(self).spec_flags() == (UpdateFlags { dirty: true, needs_redraw: true, ..old(self).spec_flags() }),
    {
        self.emit(id, CommandPayload::F32(bits));
    }

    pub fn emit_i32<T>(&mut self, id: CommandId<T>, value: i32)
        requires
            old(self).spec_queue().can_emit(),
        ensures
            final(self).spec_queue()@.drop_last() == old(self).spec_queue()@,
            final(self).spec_queue()@.last().id.spec_raw() == id.spec_raw(),
            final(self).spec_queue()@.last().widget == old(self).spec_widget(),
            final(self).spec_widget() == old(self).spec_widget(),
            final(self).spec_queue()@.len() == old(self).spec_queue()@.len() + 1,
            final(self).spec_queue()@.last().payload == CommandPayload::I32(value),
            final(self).spec_flags() == (UpdateFlags { dirty: true, needs_redraw: true, ..old(self).spec_flags() }),
    {
        self.emit(id, CommandPayload::I32(value));
    }

    pub fn emit_u32<T>(&mut self, id: CommandId<T>, value: u32)
        requires
            old(self).spec_queue().can_emit(),
        ensures
            final(self).spec_queue()@.drop_last() == old(self).spec_queue()@,
            final(self).spec_queue()@.last().id.spec_raw() == id.spec_raw(),
            final(self).spec_queue()@.last().widget == old(self).spec_widget(),
            final(self).spec_widget() == old(self).spec_widget(),
            final(self).spec_queue()@.len() == old(self).spec_queue()@.len() + 1,
            final(self).spec_queue()@.last().payload == CommandPayload::U32(value),
            final(self).spec_flags() == (UpdateFlags { dirty: true, needs_redraw: true, ..old(self).spec_flags() }),
    {
        self.emit(id, CommandPayload::U32(value));
    }

    pub fn emit_text<T>(&mut self, id: CommandId<T>, value: String)
        requires
            old(self).spec_queue().can_emit(),
        ensures
            final(self).spec_queue()@.drop_last() == old(self).spec_queue()@,
            final(self).spec_queue()@.last().id.spec_raw() == id.spec_raw(),
            final(self).spec_queue()@.last().widget == old(self).spec_widget(),
            final(self).spec_widget() == old(self).spec_widget(),
            final(self).spec_queue()@.len() == old(self).spec_queue()@.len() + 1,
            final(self).spec_queue()@.last().payload == CommandPayload::Text(value),
            final(self).spec_flags() == (UpdateFlags { dirty: true, needs_redraw: true, ..old(self).spec_flags() }),
    {
        self.emit(id, CommandPayload::Text(value));
    }

    pub fn mark_dirty(&mut self)
        ensures
            final(self).spec_flags() == (UpdateFlags { dirty: true, needs_redraw: true, ..old(self).spec_flags() }),
            final(self).spec_queue() == old(self).spec_queue(),
    {
        self.flags.mark_dirty();
    }

    pub fn mark_layout(&mut self)
        ensures
            final(self).spec_flags() == (UpdateFlags { layout_dirty: true, needs_redraw: true, ..old(self).spec_flags() }),
            final(self).spec_queue() == old(self).spec_queue(),
    {
        self.flags.mark_layout();
    }

    pub fn mark_text(&mut self)
        ensures
            final(self).spec_flags() == (UpdateFlags { text_dirty: true, needs_redraw: true, ..old(self).spec_flags() }),
            final(self).spec_queue() == old(self).spec_queue(),
    {
        self.flags.mark_text();
    }

    pub fn flags(&self) -> (r: UpdateFlags)
        ensures
            r == self.spec_flags(),
    {
        self.flags
    }
}

} // verus!
