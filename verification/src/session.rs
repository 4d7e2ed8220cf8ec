use vstd::prelude::*;

use crate::packet::{
    ack_accepts, chunk_ack_ok, chunk_address, lemma_chunk_address_is_not_an_opcode, CHUNK_LEN,
    OPCODE_VERSION, REPORT_SIZE,
};

verus! {

/// How many times one chunk is sent before the update is given up.
pub const CHUNK_ATTEMPTS: u32 = 3;

/// Largest image accepted: every chunk address stays below the first control opcode (0xFF00),
/// so the device can never read a data chunk as a command.
pub const MAX_IMAGE_LEN: usize = 0xFF000;

/// Why an image cannot be flashed.
#[derive(Debug, PartialEq, Eq, Structural, Clone, Copy)]
pub enum FlashError {
    /// There is nothing to write.
    EmptyImage,
    /// The image is longer than `MAX_IMAGE_LEN`.
    ImageTooLarge,
}

/// What to do next while flashing.
#[derive(Debug, PartialEq, Eq, Structural, Clone, Copy)]
pub enum FlashStep {
    /// Send (or send again) the chunk at this byte offset.
    SendChunk { offset: u32 },
    /// Every chunk was acknowledged: send FINISH with the last chunk's offset.
    Finish { last_chunk_offset: u32 },
    /// The chunk at this offset was not acknowledged after `CHUNK_ATTEMPTS` sends.
    GiveUp { offset: u32 },
}

/// The progress of an update: image length, offset of the chunk in flight, how many times it
/// has been sent, and whether the update has stopped (finished or given up).
pub struct FlashState {
    pub image_len: nat,
    pub offset: nat,
    pub attempt: nat,
    pub stopped: bool,
    pub acked_all: bool,
}

impl FlashState {
    /// Offsets are chunk-aligned and inside the image, the image fits the address space
    /// below the control opcodes, and a chunk is sent at most `CHUNK_ATTEMPTS` times.
    pub open spec fn well_formed(self) -> bool {
        &&& self.offset % (CHUNK_LEN as nat) == 0
        &&& self.offset < self.image_len
        &&& self.image_len <= MAX_IMAGE_LEN
        &&& 1 <= self.attempt <= CHUNK_ATTEMPTS
        &&& self.acked_all ==> self.stopped
    }
}

/// Whether a response (or its absence, on a timeout) acknowledges the chunk at `offset`.
pub open spec fn acknowledged(resp: Option<[u8; REPORT_SIZE]>, offset: nat) -> bool {
    match resp {
        Some(r) => ack_accepts(r@, offset as u32),
        None => false,
    }
}

/// The next state and step after the chunk at `s.offset` was answered (`acked`) or not.
pub open spec fn flash_next(s: FlashState, acked: bool) -> (FlashState, FlashStep) {
    if acked {
        if s.offset + CHUNK_LEN >= s.image_len {
            (
                FlashState { stopped: true, acked_all: true, ..s },
                FlashStep::Finish { last_chunk_offset: s.offset as u32 },
            )
        } else {
            (
                FlashState { offset: (s.offset + CHUNK_LEN) as nat, attempt: 1, ..s },
                FlashStep::SendChunk { offset: (s.offset + CHUNK_LEN) as u32 },
            )
        }
    } else if s.attempt < CHUNK_ATTEMPTS {
        (FlashState { attempt: s.attempt + 1, ..s }, FlashStep::SendChunk { offset: s.offset as u32 })
    } else {
        (FlashState { stopped: true, ..s }, FlashStep::GiveUp { offset: s.offset as u32 })
    }
}

/// Byte offset of the last chunk of an image of `len` bytes (`len > 0`).
pub open spec fn last_chunk_offset_of(len: nat) -> nat {
    ((len - 1) as nat / (CHUNK_LEN as nat)) * (CHUNK_LEN as nat)
}

/// The decisions of a firmware update: which chunk to send, when to resend, when to finish
/// and when to give up.
pub struct FlashPlan {
    image_len: u32,
    offset: u32,
    attempt: u32,
    stopped: bool,
    acked_all: bool,
}

impl View for FlashPlan {
    type V = FlashState;

    closed spec fn view(&self) -> FlashState {
        FlashState {
            image_len: self.image_len as nat,
            offset: self.offset as nat,
            attempt: self.attempt as nat,
            stopped: self.stopped,
            acked_all: self.acked_all,
        }
    }
}

impl FlashPlan {
    /// A plan for an image of `image_len` bytes, about to send chunk 0 for the first time.
    pub fn new(image_len: usize) -> (r: Result<FlashPlan, FlashError>)
        ensures
            (r == Err::<FlashPlan, FlashError>(FlashError::EmptyImage)) <==> image_len == 0,
            (r == Err::<FlashPlan, FlashError>(FlashError::ImageTooLarge)) <==> image_len
                > MAX_IMAGE_LEN,
            r matches Ok(p) ==> {
                &&& p@.well_formed()
                &&& p@ == FlashState {
                    image_len: image_len as nat,
                    offset: 0,
                    attempt: 1,
                    stopped: false,
                    acked_all: false,
                }
            },
    {
        if image_len == 0 {
            return Err(FlashError::EmptyImage);
        }
        if image_len > MAX_IMAGE_LEN {
            return Err(FlashError::ImageTooLarge);
        }
        Ok(FlashPlan {
            image_len: image_len as u32,
            offset: 0,
            attempt: 1,
            stopped: false,
            acked_all: false,
        })
    }

    /// Byte offset of the chunk to send now.
    pub fn offset(&self) -> (o: u32)
        ensures
            o == self@.offset,
    {
        self.offset
    }

    /// Bytes the device has acknowledged so far.
    pub fn acked_bytes(&self) -> (n: u32)
        ensures
            n == if self@.acked_all { self@.image_len } else { self@.offset },
    {
        if self.acked_all {
            self.image_len
        } else {
            self.offset
        }
    }

    /// Takes the device's response to the chunk just sent (`None` on a timeout) and says what
    /// to do next: the next chunk, the same chunk again, FINISH, or give up.
    pub fn on_response(&mut self, resp: Option<&[u8; REPORT_SIZE]>) -> (step: FlashStep)
        requires
            old(self)@.well_formed(),
            !old(self)@.stopped,
        ensures
            final(self)@.well_formed(),
            (final(self)@, step) == flash_next(
                old(self)@,
                acknowledged(
                    match resp {
                        Some(r) => Some(*r),
                        None => None,
                    },
                    old(self)@.offset,
                ),
            ),
    {
        proof {
            lemma_chunk_address_is_not_an_opcode(self.offset);
        }
        let acked = match resp {
            Some(r) => chunk_ack_ok(r, self.offset),
            None => false,
        };
        if acked {
            if self.offset as usize + CHUNK_LEN >= self.image_len as usize {
                self.stopped = true;
                self.acked_all = true;
                FlashStep::Finish { last_chunk_offset: self.offset }
            } else {
                self.offset = self.offset + CHUNK_LEN as u32;
                self.attempt = 1;
                FlashStep::SendChunk { offset: self.offset }
            }
        } else if self.attempt < CHUNK_ATTEMPTS {
            self.attempt = self.attempt + 1;
            FlashStep::SendChunk { offset: self.offset }
        } else {
            self.stopped = true;
            FlashStep::GiveUp { offset: self.offset }
        }
    }
}

/// The 16 bytes of the chunk at `offset`: the image's bytes, padded with 0xFF past its end.
pub fn chunk_data(image: &[u8], offset: u32) -> (data: [u8; CHUNK_LEN])
    ensures
        forall|i: int|
            0 <= i < CHUNK_LEN ==> #[trigger] data@[i] == if offset + i < image@.len() {
                image@[offset + i]
            } else {
                0xFFu8
            },
{
    let mut data = [0xFFu8; CHUNK_LEN];
    let mut i: usize = 0;
    while i < CHUNK_LEN
        invariant
            i <= CHUNK_LEN,
            forall|k: int|
                0 <= k < i ==> #[trigger] data@[k] == if offset + k < image@.len() {
                    image@[offset + k]
                } else {
                    0xFFu8
                },
            forall|k: int| i <= k < CHUNK_LEN ==> #[trigger] data@[k] == 0xFFu8,
        decreases CHUNK_LEN - i,
    {
        if (offset as usize) < image.len() && i < image.len() - offset as usize {
            data[i] = image[offset as usize + i];
        }
        i = i + 1;
    }
    data
}

/// Every chunk a plan sends lies inside the image on a 16-byte boundary, and its address
/// can be given to `chunk_ack_ok` and never reads as a control opcode.
pub proof fn lemma_plan_chunks_are_safe(s: FlashState)
    requires
        s.well_formed(),
    ensures
        s.offset < s.image_len,
        s.offset % 16 == 0,
        chunk_address(s.offset as u32) < OPCODE_VERSION,
{
    lemma_chunk_address_is_not_an_opcode(s.offset as u32);
}

/// FINISH is only sent once the last chunk was acknowledged, and it carries the offset of
/// the image's last chunk.
pub proof fn lemma_finish_names_the_last_chunk(s: FlashState, acked: bool)
    requires
        s.well_formed(),
        !s.stopped,
    ensures
        flash_next(s, acked).1 matches FlashStep::Finish { last_chunk_offset } ==> {
            &&& acked
            &&& last_chunk_offset == last_chunk_offset_of(s.image_len)
            &&& flash_next(s, acked).0.acked_all
        },
{
    if acked && s.offset + CHUNK_LEN >= s.image_len {
        let q = s.offset / 16;
        assert(s.offset == q * 16);
        assert((s.image_len - 1) as nat / 16 == q) by (nonlinear_arith)
            requires
                s.offset == q * 16,
                s.offset < s.image_len,
                s.image_len <= s.offset + 16,
        ;
    }
}

/// A chunk is given up only after it went unacknowledged `CHUNK_ATTEMPTS` times; a
/// missing or wrong answer before that resends the same chunk.
pub proof fn lemma_retries_before_giving_up(s: FlashState)
    requires
        s.well_formed(),
        !s.stopped,
    ensures
        flash_next(s, false).1 is GiveUp <==> s.attempt == CHUNK_ATTEMPTS,
        s.attempt < CHUNK_ATTEMPTS ==> flash_next(s, false).1 == (FlashStep::SendChunk {
            offset: s.offset as u32,
        }),
{
}

/// An acknowledged chunk that is not the last moves the plan to the next chunk, 16 bytes
/// on, and that chunk starts afresh: it is sent up to `CHUNK_ATTEMPTS` times however many
/// sends the chunk before it needed. Concretely, after the acknowledgement two missing
/// answers each resend the new chunk, and only the third unanswered send gives it up.
pub proof fn lemma_next_chunk_gets_every_attempt(s: FlashState)
    requires
        s.well_formed(),
        !s.stopped,
        s.offset + CHUNK_LEN < s.image_len,
    ensures
        ({
            let (s1, step1) = flash_next(s, true);
            let (s2, step2) = flash_next(s1, false);
            let (s3, step3) = flash_next(s2, false);
            let (s4, step4) = flash_next(s3, false);
            &&& step1 == FlashStep::SendChunk { offset: (s.offset + 16) as u32 }
            &&& s1.offset == s.offset + 16
            &&& s1.image_len == s.image_len
            &&& !s1.stopped
            &&& s1.attempt == 1
            &&& s1.well_formed()
            &&& step2 == FlashStep::SendChunk { offset: (s.offset + 16) as u32 }
            &&& step3 == FlashStep::SendChunk { offset: (s.offset + 16) as u32 }
            &&& step4 == FlashStep::GiveUp { offset: (s.offset + 16) as u32 }
            &&& s4.stopped && !s4.acked_all
        }),
{
}

/// An unacknowledged chunk is sent again (same offset, one more send counted) until it has
/// been sent `CHUNK_ATTEMPTS` times; the plan never moves past a chunk it was not told was
/// written, and never finishes without an acknowledgement.
pub proof fn lemma_no_progress_without_ack(s: FlashState)
    requires
        s.well_formed(),
        !s.stopped,
    ensures
        ({
            let (t, step) = flash_next(s, false);
            &&& t.offset == s.offset
            &&& t.image_len == s.image_len
            &&& !t.acked_all
            &&& !(step is Finish)
            &&& (s.attempt < CHUNK_ATTEMPTS ==> t.attempt == s.attempt + 1 && !t.stopped)
            &&& (s.attempt == CHUNK_ATTEMPTS ==> t.stopped)
        }),
{
}

/// Starting from a fresh plan and acknowledging every chunk on its first send walks the
/// chunks 0, 16, 32, ... in order: after `k` acknowledgements of non-final chunks the chunk
/// in flight is at offset `16 * k`, on its first send.
pub proof fn lemma_acks_walk_chunks_in_order(s: FlashState, k: nat)
    requires
        s.well_formed(),
        !s.stopped,
        s.offset + 16 * k < s.image_len,
    ensures
        ({
            let t = acks(s, k);
            &&& t.offset == s.offset + 16 * k
            &&& t.image_len == s.image_len
            &&& !t.stopped
            &&& t.well_formed()
            &&& (k > 0 ==> t.attempt == 1)
        }),
    decreases k,
{
    if k > 0 {
        lemma_acks_walk_chunks_in_order(s, (k - 1) as nat);
    }
}

/// The state after `k` acknowledgements in a row.
pub open spec fn acks(s: FlashState, k: nat) -> FlashState
    decreases k,
{
    if k == 0 {
        s
    } else {
        flash_next(acks(s, (k - 1) as nat), true).0
    }
}

} // verus!
