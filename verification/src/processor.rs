//! The processors of dynamic channels.
use vstd::prelude::*;
use core::any::{Any, TypeId};

use crate::error::PduError;

verus! {

/// A message for the client, encoded, as a processor hands it out.
#[derive(Debug, PartialEq, Eq)]
pub struct DvcMessage {
    pub bytes: Vec<u8>,
}

impl View for DvcMessage {
    type V = Seq<u8>;

    open spec fn view(&self) -> Seq<u8> {
        self.bytes@
    }
}

/// The messages that a processor answers with, by their bytes, or its error.
pub type Answer = Result<Seq<Seq<u8>>, PduError>;

/// The bytes of each message.
pub open spec fn bytes_of(messages: Seq<DvcMessage>) -> Seq<Seq<u8>> {
    messages.map_values(|m: DvcMessage| m@)
}

/// What a processor answered.
pub open spec fn answer_view(r: Result<Vec<DvcMessage>, PduError>) -> Answer {
    match r {
        Ok(messages) => Ok(bytes_of(messages@)),
        Err(e) => Err(e),
    }
}

/// What serves one dynamic virtual channel.
///
/// The spec functions are what contracts know of a processor. Of one that does not define them they
/// say no more than that it has a name.
pub trait DvcProcessor: Send {
    /// The name of the channel. It follows from what the processor holds.
    open spec fn name(&self) -> Seq<char> {
        arbitrary()
    }

    /// Whether the processor, told that its channel was created, may become `after` and answer
    /// with `answer`.
    open spec fn starts(&self, channel_id: u32, after: &Self, answer: Answer) -> bool {
        true
    }

    /// Whether the processor, handed a message of the client, may become `after` and answer with
    /// `answer`.
    open spec fn processes(
        &self,
        channel_id: u32,
        payload: Seq<u8>,
        after: &Self,
        answer: Answer,
    ) -> bool {
        true
    }

    /// The name of the channel, such as "Microsoft::Windows::RDS::DisplayControl".
    fn channel_name(&self) -> (r: &str)
        ensures
            r@ == self.name(),
    ;

    /// Takes note that the channel was created, and returns the messages to send at once.
    fn start(&mut self, channel_id: u32) -> (r: Result<Vec<DvcMessage>, PduError>)
        ensures
            old(self).starts(channel_id, final(self), answer_view(r)),
    ;

    /// Takes a message of the client, and returns the messages to answer with.
    fn process(&mut self, channel_id: u32, payload: &[u8]) -> (r: Result<
        Vec<DvcMessage>,
        PduError,
    >)
        ensures
            old(self).processes(channel_id, payload@, final(self), answer_view(r)),
    ;

    /// Takes note that the channel is gone.
    fn close(&mut self, channel_id: u32)
        opens_invariants none
        no_unwind
    {
    }
}

/// A processor on the side of the server.
pub trait DvcServerProcessor: DvcProcessor {

}

/// Declares the standard library's `TypeId`, the identity of a type.
#[verifier::external_type_specification]
#[verifier::external_body]
pub struct ExTypeId(TypeId);

/// A value of any type.
trait Opaque {

}

impl<T: DvcServerProcessor + 'static> Opaque for T {

}

/// All that a processor holds.
struct ProcessorValue {
    value: Box<dyn Opaque>,
}

impl ProcessorValue {
    spec fn of<T: DvcServerProcessor + 'static>(p: T) -> ProcessorValue {
        ProcessorValue { value: Box::new(p) }
    }
}

/// What contracts say of a processor whose type is no longer known.
trait Described {
    spec fn described_name(&self) -> Seq<char>;

    spec fn described_type(&self) -> TypeId;

    spec fn described_value(&self) -> ProcessorValue;

    spec fn described_starts(
        &self,
        channel_id: u32,
        after: ProcessorValue,
        answer: Answer,
    ) -> bool;

    spec fn described_processes(
        &self,
        channel_id: u32,
        payload: Seq<u8>,
        after: ProcessorValue,
        answer: Answer,
    ) -> bool;

    spec fn described_closes(&self, channel_id: u32) -> bool;
}

impl<T: DvcServerProcessor + 'static> Described for T {
    spec fn described_name(&self) -> Seq<char> {
        self.name()
    }

    spec fn described_type(&self) -> TypeId {
        type_of::<T>()
    }

    spec fn described_value(&self) -> ProcessorValue {
        ProcessorValue::of(*self)
    }

    spec fn described_starts(
        &self,
        channel_id: u32,
        after: ProcessorValue,
        answer: Answer,
    ) -> bool {
        exists|p: T|
            after == ProcessorValue::of(p) && #[trigger] self.starts(channel_id, &p, answer)
    }

    spec fn described_processes(
        &self,
        channel_id: u32,
        payload: Seq<u8>,
        after: ProcessorValue,
        answer: Answer,
    ) -> bool {
        exists|p: T|
            after == ProcessorValue::of(p) && #[trigger] self.processes(
                channel_id,
                payload,
                &p,
                answer,
            )
    }

    spec fn described_closes(&self, channel_id: u32) -> bool {
        exists|p: &mut T| *p == *self && #[trigger] call_ensures(T::close, (p, channel_id), ())
    }
}

/// A processor of any type, with all that it holds.
pub struct ProcessorModel {
    processor: Box<dyn Described>,
}

impl ProcessorModel {
    /// The processor `p`.
    pub closed spec fn of<T: DvcServerProcessor + 'static>(p: T) -> ProcessorModel {
        ProcessorModel { processor: Box::new(p) }
    }

    /// The name of the channel that it serves.
    pub closed spec fn name(self) -> Seq<char> {
        self.processor.described_name()
    }

    /// The identity of its type.
    pub closed spec fn type_id(self) -> TypeId {
        self.processor.described_type()
    }

    /// Whether it may become `after`, and answer with `answer`, when it is told that the channel
    /// was created.
    pub closed spec fn starts(
        self,
        channel_id: u32,
        after: ProcessorModel,
        answer: Answer,
    ) -> bool {
        &&& after.type_id() == self.type_id()
        &&& self.processor.described_starts(
            channel_id,
            after.processor.described_value(),
            answer,
        )
    }

    /// Whether it may become `after`, and answer with `answer`, when it is handed a message of the
    /// client.
    pub closed spec fn processes(
        self,
        channel_id: u32,
        payload: Seq<u8>,
        after: ProcessorModel,
        answer: Answer,
    ) -> bool {
        &&& after.type_id() == self.type_id()
        &&& self.processor.described_processes(
            channel_id,
            payload,
            after.processor.described_value(),
            answer,
        )
    }

    /// Whether it holds what `p` does.
    pub closed spec fn holds<T: DvcServerProcessor + 'static>(self, p: T) -> bool {
        self.processor.described_value() == ProcessorValue::of(p)
    }

    /// Whether its `close` may have run, on this processor and for this channel.
    pub closed spec fn closes(self, channel_id: u32) -> bool {
        self.processor.described_closes(channel_id)
    }
}

/// A processor of a known type has the name that it gives itself, the identity of its type, and
/// what it holds.
pub broadcast proof fn lemma_known_processor<T: DvcServerProcessor + 'static>(p: T)
    ensures
        (#[trigger] ProcessorModel::of(p)).name() == p.name(),
        ProcessorModel::of(p).type_id() == type_of::<T>(),
        ProcessorModel::of(p).holds(p),
{
}

/// A processor of a known type answers as that type allows, and becomes what that type allows with
/// this answer. Everything that the type allows may come.
pub proof fn lemma_known_answers<T: DvcServerProcessor + 'static>(
    p: T,
    channel_id: u32,
    payload: Seq<u8>,
    after: ProcessorModel,
    answer: Answer,
)
    ensures
        ProcessorModel::of(p).starts(channel_id, after, answer) ==> exists|q: T|
            after.holds(q) && #[trigger] p.starts(channel_id, &q, answer),
        ProcessorModel::of(p).processes(channel_id, payload, after, answer) ==> exists|q: T|
            after.holds(q) && #[trigger] p.processes(channel_id, payload, &q, answer),
        forall|q: T| #[trigger]
            p.starts(channel_id, &q, answer) ==> ProcessorModel::of(p).starts(
                channel_id,
                ProcessorModel::of(q),
                answer,
            ),
        forall|q: T| #[trigger]
            p.processes(channel_id, payload, &q, answer) ==> ProcessorModel::of(p).processes(
                channel_id,
                payload,
                ProcessorModel::of(q),
                answer,
            ),
{
}

/// A processor of a known type is told that its channel is gone by the `close` of that type.
pub proof fn lemma_known_close<T: DvcServerProcessor + 'static>(p: T, channel_id: u32)
    ensures
        ProcessorModel::of(p).closes(channel_id) <==> exists|m: &mut T|
            *m == p && #[trigger] call_ensures(T::close, (m, channel_id), ()),
{
}

/// A processor that is told of the creation of its channel keeps its type.
pub proof fn lemma_start_keeps_type(
    before: ProcessorModel,
    channel_id: u32,
    after: ProcessorModel,
    answer: Answer,
)
    requires
        before.starts(channel_id, after, answer),
    ensures
        after.type_id() == before.type_id(),
{
}

/// A processor that is handed a message keeps its type.
pub proof fn lemma_process_keeps_type(
    before: ProcessorModel,
    channel_id: u32,
    payload: Seq<u8>,
    after: ProcessorModel,
    answer: Answer,
)
    requires
        before.processes(channel_id, payload, after, answer),
    ensures
        after.type_id() == before.type_id(),
{
}

/// Whether `code` gives different lists of numbers to different values.
pub open spec fn tells_apart<T>(code: spec_fn(T) -> Seq<int>) -> bool {
    forall|a: T, b: T| #[trigger] code(a) == #[trigger] code(b) ==> a == b
}

/// Whether lists of numbers can tell the values of a type apart. They can where a value is made of
/// what a program can store. They cannot where it holds a ghost function.
pub open spec fn told_apart<T>() -> bool {
    exists|code: spec_fn(T) -> Seq<int>| tells_apart(code)
}

/// Whether `p` is the processor that `m` stands for. Where values can be told apart, no other one
/// is.
pub open spec fn shows<T: DvcServerProcessor + 'static>(m: ProcessorModel, p: T) -> bool {
    &&& m == ProcessorModel::of(p)
    &&& told_apart::<T>() ==> forall|q: T| #[trigger] m.holds(q) ==> q == p
}

/// The identity that the standard library gives to the type of a processor.
pub uninterp spec fn type_id_of(p: ProcessorModel) -> TypeId;

/// The identity of the type `T`: that of the type of any value of it.
pub open spec fn type_of<T: DvcServerProcessor + 'static>() -> TypeId {
    type_id_of(ProcessorModel::of(arbitrary::<T>()))
}

/// Calls `TypeId::of`, which returns the identity of a type. As long as a program runs, a type
/// keeps it.
#[verifier::external_body]
pub(crate) fn type_id_of_type<T: DvcServerProcessor + 'static>() -> (r: TypeId)
    ensures
        r == type_id_of(ProcessorModel::of(arbitrary::<T>())),
{
    TypeId::of::<T>()
}

/// Compares two identities with the `==` of `TypeId`, which tells types apart.
#[verifier::external_body]
pub(crate) fn same_type(a: &TypeId, b: &TypeId) -> (r: bool)
    ensures
        r == (*a == *b),
{
    *a == *b
}

/// A reference to a processor of any type: the standard library's `&dyn Any`.
#[verifier::external_body]
pub struct AnyRef<'a> {
    inner: &'a dyn Any,
}

/// The processor behind the reference.
pub uninterp spec fn any_ref_target(a: AnyRef<'_>) -> ProcessorModel;

/// A mutable reference to a processor of any type: the standard library's `&mut dyn Any`.
#[verifier::external_body]
pub struct AnyMut<'a> {
    inner: &'a mut dyn Any,
}

/// The processor behind the reference.
pub uninterp spec fn any_mut_target(a: AnyMut<'_>) -> ProcessorModel;

/// Turns a reference into a `&dyn Any`, which refers to the same processor.
#[verifier::external_body]
fn any_ref<T: DvcServerProcessor + 'static>(processor: &T) -> (r: AnyRef<'_>)
    ensures
        any_ref_target(r) == ProcessorModel::of(*processor),
{
    AnyRef { inner: processor }
}

/// Turns a mutable reference into a `&mut dyn Any`, which refers to the same processor.
#[verifier::external_body]
fn any_mut<T: DvcServerProcessor + 'static>(processor: &mut T) -> (r: AnyMut<'_>)
    ensures
        any_mut_target(r) == ProcessorModel::of(*old(processor)),
{
    AnyMut { inner: processor }
}

/// Calls `downcast_ref` of `dyn Any`, which returns the processor if it is of type `T`. What is
/// returned is what the reference was made of, where values of `T` can be told apart at all.
#[verifier::external_body]
fn any_downcast_ref<'a, T: DvcServerProcessor + 'static>(any: AnyRef<'a>) -> (r: Option<&'a T>)
    ensures
        r is Some <==> any_ref_target(any).type_id() == type_of::<T>(),
        r matches Some(p) ==> shows(any_ref_target(any), *p),
{
    any.inner.downcast_ref::<T>()
}

/// A processor whose type is no longer known.
trait ErasedProcessor: Send {
    spec fn model(&self) -> ProcessorModel;

    fn erased_name(&self) -> (r: &str)
        ensures
            r@ == self.model().name(),
    ;

    fn erased_start(&mut self, channel_id: u32) -> (r: Result<Vec<DvcMessage>, PduError>)
        ensures
            old(self).model().starts(channel_id, final(self).model(), answer_view(r)),
    ;

    fn erased_process(&mut self, channel_id: u32, payload: &[u8]) -> (r: Result<
        Vec<DvcMessage>,
        PduError,
    >)
        ensures
            old(self).model().processes(
                channel_id,
                payload@,
                final(self).model(),
                answer_view(r),
            ),
    ;

    fn erased_close(&mut self, channel_id: u32)
        ensures
            old(self).model().closes(channel_id),
            final(self).model().type_id() == old(self).model().type_id(),
        opens_invariants none
        no_unwind when true
    ;

    fn erased_type_id(&self) -> (r: TypeId)
        ensures
            r == self.model().type_id(),
    ;

    fn as_any(&self) -> (r: AnyRef<'_>)
        ensures
            any_ref_target(r) == self.model(),
    ;

    fn as_any_mut(&mut self) -> (r: AnyMut<'_>)
        ensures
            any_mut_target(r) == old(self).model(),
    ;
}

impl<T: DvcServerProcessor + 'static> ErasedProcessor for T {
    spec fn model(&self) -> ProcessorModel {
        ProcessorModel::of(*self)
    }

    fn erased_name(&self) -> (r: &str) {
        self.channel_name()
    }

    fn erased_start(&mut self, channel_id: u32) -> (r: Result<Vec<DvcMessage>, PduError>) {
        self.start(channel_id)
    }

    fn erased_process(&mut self, channel_id: u32, payload: &[u8]) -> (r: Result<
        Vec<DvcMessage>,
        PduError,
    >) {
        self.process(channel_id, payload)
    }

    fn erased_close(&mut self, channel_id: u32) {
        self.close(channel_id)
    }

    fn erased_type_id(&self) -> (r: TypeId) {
        type_id_of_type::<T>()
    }

    fn as_any(&self) -> (r: AnyRef<'_>) {
        any_ref(self)
    }

    fn as_any_mut(&mut self) -> (r: AnyMut<'_>) {
        any_mut(self)
    }
}

/// Calls `downcast_mut` of `dyn Any`, which returns the processor if it is of type `T`. What that
/// becomes, the processor becomes.
#[verifier::external_body]
fn erased_downcast_mut<'a, T: DvcServerProcessor + 'static>(
    processor: &'a mut Box<dyn ErasedProcessor>,
) -> (r: Option<&'a mut T>)
    ensures
        r is Some <==> old(processor).model().type_id() == type_of::<T>(),
        r matches Some(p) ==> old(processor).model() == ProcessorModel::of(*p) && final(
            processor).model() == ProcessorModel::of(*final(p)),
        r is None ==> *final(processor) == *old(processor),
{
    (**processor).as_any_mut().inner.downcast_mut::<T>()
}

/// A processor of any type.
pub struct Processor {
    inner: Box<dyn ErasedProcessor>,
}

impl View for Processor {
    type V = ProcessorModel;

    closed spec fn view(&self) -> ProcessorModel {
        self.inner.model()
    }
}

impl Processor {
    /// Forgets the type of the processor.
    pub fn new<T: DvcServerProcessor + 'static>(processor: T) -> (r: Processor)
        ensures
            r@ == ProcessorModel::of(processor),
    {
        Processor { inner: Box::new(processor) }
    }

    /// The name of the channel.
    pub fn channel_name(&self) -> (r: &str)
        ensures
            r@ == self@.name(),
    {
        self.inner.erased_name()
    }

    /// Tells the processor that the channel was created. What it returns and becomes is its own
    /// affair; its type stays.
    pub fn start(&mut self, channel_id: u32) -> (r: Result<Vec<DvcMessage>, PduError>)
        ensures
            old(self)@.starts(channel_id, final(self)@, answer_view(r)),
            final(self)@.type_id() == old(self)@.type_id(),
    {
        self.inner.erased_start(channel_id)
    }

    /// Hands the processor a message of the client. What it returns and becomes is its own
    /// affair; its type stays.
    pub fn process(&mut self, channel_id: u32, payload: &[u8]) -> (r: Result<
        Vec<DvcMessage>,
        PduError,
    >)
        ensures
            old(self)@.processes(channel_id, payload@, final(self)@, answer_view(r)),
            final(self)@.type_id() == old(self)@.type_id(),
    {
        self.inner.erased_process(channel_id, payload)
    }

    /// Tells the processor that the channel is gone.
    pub fn close(&mut self, channel_id: u32)
        ensures
            old(self)@.closes(channel_id),
            final(self)@.type_id() == old(self)@.type_id(),
        opens_invariants none
        no_unwind
    {
        self.inner.erased_close(channel_id)
    }

    /// The identity of the processor's type.
    pub fn processor_type_id(&self) -> (r: TypeId)
        ensures
            r == self@.type_id(),
    {
        self.inner.erased_type_id()
    }

    /// The processor, if it is of type `T`.
    pub fn downcast_ref<T: DvcServerProcessor + 'static>(&self) -> (r: Option<&T>)
        ensures
            r is Some <==> self@.type_id() == type_of::<T>(),
            r matches Some(p) ==> shows(self@, *p),
    {
        any_downcast_ref::<T>(self.inner.as_any())
    }

    /// The processor, if it is of type `T`.
    pub fn downcast_mut<T: DvcServerProcessor + 'static>(&mut self) -> (r: Option<&mut T>)
        ensures
            r is Some <==> old(self)@.type_id() == type_of::<T>(),
            r matches Some(p) ==> old(self)@ == ProcessorModel::of(*p) && final(self)@
                == ProcessorModel::of(*final(p)),
            r is None ==> final(self)@ == old(self)@,
    {
        erased_downcast_mut::<T>(&mut self.inner)
    }
}

/// An open channel that was found by its identifier, with its processor.
#[derive(Debug, Clone, Copy)]
pub struct DynamicChannelRef<'a, T> {
    channel_id: u32,
    processor: &'a T,
}

impl<'a, T> DynamicChannelRef<'a, T> {
    /// The identifier of the channel.
    pub closed spec fn id(self) -> u32 {
        self.channel_id
    }

    /// The processor of the channel.
    pub closed spec fn target(self) -> T {
        *self.processor
    }

    pub(crate) fn new(channel_id: u32, processor: &'a T) -> (r: DynamicChannelRef<'a, T>)
        ensures
            r.id() == channel_id,
            r.target() == *processor,
    {
        DynamicChannelRef { channel_id, processor }
    }

    /// The identifier of the channel.
    pub fn channel_id(&self) -> (r: u32)
        ensures
            r == self.id(),
    {
        self.channel_id
    }

    /// The processor of the channel.
    pub fn processor(&self) -> (r: &'a T)
        ensures
            *r == self.target(),
    {
        self.processor
    }
}

/// An open channel that was found by its identifier, with its processor.
#[derive(Debug)]
pub struct DynamicChannelMut<'a, T> {
    pub channel_id: u32,
    pub processor: &'a mut T,
}

impl<'a, T> DynamicChannelMut<'a, T> {
    /// The processor of the channel.
    pub open spec fn target(self) -> T {
        *self.processor
    }

    /// The identifier of the channel.
    pub fn channel_id(&self) -> (r: u32)
        ensures
            r == self.channel_id,
    {
        self.channel_id
    }

    /// The processor of the channel.
    pub fn processor(&self) -> (r: &T)
        ensures
            *r == self.target(),
    {
        self.processor
    }

    /// The processor of the channel.
    pub fn processor_mut(&mut self) -> (r: &mut T)
        ensures
            *r == old(self).target(),
            final(self).target() == *final(r),
            *final(final(self).processor) == *final(old(self).processor),
            final(self).channel_id == old(self).channel_id,
    {
        self.processor
    }
}

} // verus!
