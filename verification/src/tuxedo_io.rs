use vstd::prelude::*;

verus! {

/// Magic number of the hardware check ioctls of `/dev/tuxedo_io`.
pub const IOCTL_MAGIC: u8 = 0xEC;

/// Magic number of the Clevo read ioctls.
pub const MAGIC_READ_CL: u8 = 0xED;

/// Magic number of the Clevo write ioctls.
pub const MAGIC_WRITE_CL: u8 = 0xEE;

/// Magic number of the Uniwill read ioctls.
pub const MAGIC_READ_UW: u8 = 0xEF;

/// Magic number of the Uniwill write ioctls.
pub const MAGIC_WRITE_UW: u8 = 0xF0;

/// The embedded controller interface that `/dev/tuxedo_io` drives.
#[derive(Debug, Clone, Copy, PartialEq, Eq, Structural)]
pub enum HardwareInterface {
    Clevo,
    Uniwill,
    NoneFound,
}

/// A read ioctl that answers one `i32`: its magic number and sequence number, and whether
/// its request code is sized for a pointer (else for an `i32`).
#[derive(Debug, Clone, Copy, PartialEq, Eq, Structural)]
pub struct ReadRequest {
    pub magic: u8,
    pub seq: u8,
    pub pointer_sized: bool,
}

/// A write ioctl and the value it passes.
#[derive(Debug, Clone, Copy, PartialEq, Eq, Structural)]
pub enum WriteRequest {
    /// The three Clevo fan speeds, packed one per byte.
    ClevoFanSpeed(i32),
    /// Clevo fans back to automatic control.
    ClevoFanAuto(i32),
    /// Clevo webcam switch.
    ClevoWebcam(i32),
    /// Clevo performance profile (1-based).
    ClevoPerfProfile(i32),
    /// Speed of Uniwill fan 0.
    UniwillFanSpeed(i32),
    /// Speed of Uniwill fan 1.
    UniwillFanSpeed2(i32),
    /// Uniwill fans back to automatic control, with this argument.
    UniwillFanAuto(u64),
    /// Uniwill TDP `index` set to `value`.
    UniwillTdp { index: u8, value: i32 },
    /// Uniwill performance profile (1-based).
    UniwillPerfProfile(i32),
}

/// Why a request to the device is refused before it is made.
#[derive(Debug, Clone, Copy, PartialEq, Eq, Structural)]
pub enum IoError {
    /// No embedded controller interface was detected.
    NoInterface,
    /// The interface has no fan of this number.
    InvalidFanId,
    /// The fan reports no temperature.
    FanNotAvailable,
    /// TDP control needs the Uniwill interface.
    TdpUnsupported,
    /// There is no TDP of this number.
    InvalidTdpIndex,
    /// Webcam control needs the Clevo interface.
    WebcamUnsupported,
}

/// The interface a device answers to: the Clevo or Uniwill hardware check answering 1, in
/// that order, else the first of the Clevo and Uniwill fan probes that succeeds.
pub open spec fn interface_of(
    cl_check: Option<i32>,
    uw_check: Option<i32>,
    probe_cl_ok: bool,
    probe_uw_ok: bool,
) -> HardwareInterface {
    if cl_check == Some(1i32) {
        HardwareInterface::Clevo
    } else if uw_check == Some(1i32) {
        HardwareInterface::Uniwill
    } else if probe_cl_ok {
        HardwareInterface::Clevo
    } else if probe_uw_ok {
        HardwareInterface::Uniwill
    } else {
        HardwareInterface::NoneFound
    }
}

/// The interface a device answers to, from the hardware checks (`None` where the ioctl
/// failed) and the fan probes (`false` where the probe failed or was not needed).
pub fn detect_interface(
    cl_check: Option<i32>,
    uw_check: Option<i32>,
    probe_cl_ok: bool,
    probe_uw_ok: bool,
) -> (r: HardwareInterface)
    ensures
        r == interface_of(cl_check, uw_check, probe_cl_ok, probe_uw_ok),
{
    if cl_check == Some(1i32) {
        return HardwareInterface::Clevo;
    }
    if uw_check == Some(1i32) {
        return HardwareInterface::Uniwill;
    }
    if probe_cl_ok {
        return HardwareInterface::Clevo;
    }
    if probe_uw_ok {
        return HardwareInterface::Uniwill;
    }
    HardwareInterface::NoneFound
}

/// The hardware check reads: Clevo first, then Uniwill.
pub fn hardware_check_requests() -> (r: (ReadRequest, ReadRequest))
    ensures
        r.0 == (ReadRequest { magic: IOCTL_MAGIC, seq: 0x05, pointer_sized: true }),
        r.1 == (ReadRequest { magic: IOCTL_MAGIC, seq: 0x06, pointer_sized: true }),
{
    (
        ReadRequest { magic: IOCTL_MAGIC, seq: 0x05, pointer_sized: true },
        ReadRequest { magic: IOCTL_MAGIC, seq: 0x06, pointer_sized: true },
    )
}

/// The fan information read of Clevo fan `fan` (0, 1 or 2), or of Uniwill fan `fan`
/// (0 or 1), also used to probe for the interface.
pub fn fan_info_request(interface: HardwareInterface, fan: u8) -> (r: ReadRequest)
    requires
        interface != HardwareInterface::NoneFound,
        fan < 3,
    ensures
        r == (ReadRequest {
            magic: if interface == HardwareInterface::Clevo {
                MAGIC_READ_CL
            } else {
                MAGIC_READ_UW
            },
            seq: (0x10 + fan) as u8,
            pointer_sized: true,
        }),
{
    let magic = if interface == HardwareInterface::Clevo {
        MAGIC_READ_CL
    } else {
        MAGIC_READ_UW
    };
    ReadRequest { magic, seq: 0x10 + fan, pointer_sized: true }
}

/// The temperature byte (bits 16 to 23) of a Clevo fan information word.
pub open spec fn clevo_temp_byte(raw: i32) -> u32 {
    ((raw >> 16u32) & 0xFFi32) as u32
}

/// The speed byte (bits 0 to 7) of a Clevo fan information word.
pub open spec fn clevo_speed_byte(raw: i32) -> u8 {
    (raw & 0xFFi32) as u8
}

/// A Clevo fan exists when its temperature byte is above 1.
pub fn clevo_fan_present(raw: i32) -> (r: bool)
    ensures
        r == (clevo_temp_byte(raw) > 1),
{
    let temp2 = ((raw >> 16u32) & 0xFFi32) as u32;
    temp2 > 1
}

/// The number of leading fan information words, of at most three, whose fan exists.
pub open spec fn leading_present(raws: Seq<i32>, n: int) -> int
    decreases n,
{
    if n <= 0 {
        0
    } else if leading_present(raws, n - 1) == n - 1 && clevo_temp_byte(raws[n - 1]) > 1 {
        n
    } else {
        leading_present(raws, n - 1)
    }
}

/// The number of fans: for Clevo, the fans up to the first absent one among the
/// information words read (at most three); for Uniwill, 0 if the first fan's read fails,
/// else 2 if the second's succeeds, else 1; none without an interface.
pub open spec fn fan_count_of(
    interface: HardwareInterface,
    clevo_raws: Seq<i32>,
    uw_first_ok: bool,
    uw_second_ok: bool,
) -> int {
    match interface {
        HardwareInterface::Clevo => leading_present(clevo_raws, if clevo_raws.len() < 3 {
            clevo_raws.len() as int
        } else {
            3
        }),
        HardwareInterface::Uniwill => if !uw_first_ok {
            0
        } else if uw_second_ok {
            2
        } else {
            1
        },
        HardwareInterface::NoneFound => 0,
    }
}

/// The number of fans of a device (see `fan_count_of`).
pub fn detect_fan_count(
    interface: HardwareInterface,
    clevo_raws: &Vec<i32>,
    uw_first_ok: bool,
    uw_second_ok: bool,
) -> (r: u32)
    ensures
        r == fan_count_of(interface, clevo_raws@, uw_first_ok, uw_second_ok),
{
    match interface {
        HardwareInterface::Clevo => {
            let n: usize = if clevo_raws.len() < 3 {
                clevo_raws.len()
            } else {
                3
            };
            let mut count: u32 = 0;
            let mut i: usize = 0;
            while i < n
                invariant
                    n <= 3,
                    n <= clevo_raws.len(),
                    n == (if clevo_raws@.len() < 3 {
                        clevo_raws@.len() as int
                    } else {
                        3
                    }),
                    interface == HardwareInterface::Clevo,
                    i <= n,
                    count == leading_present(clevo_raws@, i as int),
                    count == i,
                decreases n - i,
            {
                if !clevo_fan_present(clevo_raws[i]) {
                    proof {
                        lemma_leading_present_stops(clevo_raws@, i as int, n as int);
                    }
                    return count;
                }
                count = count + 1;
                i = i + 1;
            }
            count
        },
        HardwareInterface::Uniwill => {
            if !uw_first_ok {
                0
            } else if uw_second_ok {
                2
            } else {
                1
            }
        },
        HardwareInterface::NoneFound => 0,
    }
}

proof fn lemma_leading_present_stops(raws: Seq<i32>, i: int, n: int)
    requires
        0 <= i < n <= raws.len(),
        leading_present(raws, i) == i,
        clevo_temp_byte(raws[i]) <= 1,
    ensures
        leading_present(raws, n) == i,
    decreases n - i,
{
    if n > i + 1 {
        lemma_leading_present_stops(raws, i, n - 1);
        assert(leading_present(raws, n - 1) == i);
    }
}

/// A Clevo speed byte (0..=255) as a percentage, rounded to nearest.
pub open spec fn raw_to_percent(raw: int) -> int {
    (raw * 100 + 127) / 255
}

/// A percentage, held at 100, as a Clevo speed byte, rounded to nearest.
pub open spec fn percent_to_raw(percent: int) -> int {
    let p = if percent > 100 {
        100
    } else {
        percent
    };
    (p * 255 + 50) / 100
}

/// A Clevo speed byte as a percentage.
pub fn clevo_raw_to_percent(raw: u8) -> (r: u32)
    ensures
        r == raw_to_percent(raw as int),
        r <= 100,
{
    ((raw as u32 * 100) + 127) / 255
}

/// A percentage as a Clevo speed byte.
pub fn clevo_percent_to_raw(percent: u32) -> (r: u8)
    ensures
        r == percent_to_raw(percent as int),
{
    let p = if percent > 100 {
        100
    } else {
        percent
    };
    (((p * 255) + 50) / 100) as u8
}

/// Writing a percentage to a Clevo fan and reading the byte back as a percentage gives the
/// percentage, held at 100.
pub proof fn lemma_percent_round_trip(percent: int)
    requires
        percent >= 0,
    ensures
        raw_to_percent(percent_to_raw(percent)) == if percent > 100 {
            100
        } else {
            percent
        },
        0 <= percent_to_raw(percent) <= 255,
{
    let p = if percent > 100 {
        100
    } else {
        percent
    };
    let raw = (p * 255 + 50) / 100;
    let e = (p * 255 + 50) % 100;
    assert(p * 255 + 50 == 100 * raw + e && 0 <= e < 100) by (nonlinear_arith)
        requires
            raw == (p * 255 + 50) / 100,
            e == (p * 255 + 50) % 100,
    ;
    assert((raw * 100 + 127) / 255 == p) by (nonlinear_arith)
        requires
            p * 255 + 50 == 100 * raw + e,
            0 <= e < 100,
            0 <= p <= 100,
    ;
    assert(0 <= raw <= 255) by (nonlinear_arith)
        requires
            raw == (p * 255 + 50) / 100,
            0 <= p <= 100,
    ;
}

/// Three Clevo speed bytes packed into one word, fan 0 in the lowest byte.
pub open spec fn pack_speeds(b0: u8, b1: u8, b2: u8) -> int {
    b0 + 256 * b1 + 65536 * b2
}

/// Packs three Clevo speed bytes into one word, fan 0 in the lowest byte.
pub fn pack_clevo_speeds(b0: u8, b1: u8, b2: u8) -> (r: i32)
    ensures
        r == pack_speeds(b0, b1, b2),
        clevo_speed_byte(r) == b0,
{
    let r = (b0 as i32) | ((b1 as i32) << 8u32) | ((b2 as i32) << 16u32);
    assert(((b0 as i32) | ((b1 as i32) << 8u32) | ((b2 as i32) << 16u32)) == b0 as i32 + 256
        * (b1 as i32) + 65536 * (b2 as i32)) by (bit_vector);
    assert(((b0 as i32) | ((b1 as i32) << 8u32) | ((b2 as i32) << 16u32)) & 0xFFi32 == b0 as i32)
        by (bit_vector);
    r
}

/// A model of the opened `/dev/tuxedo_io`: the interface found and the number of fans.
#[derive(Debug, Clone, Copy)]
pub struct TuxedoIo {
    interface: HardwareInterface,
    fan_count: u32,
}

/// Why fan `fan_id` cannot be read through `interface`, if it cannot: no interface, or a
/// fan past the interface's last (Clevo has three, Uniwill `uniwill_fans`).
pub open spec fn fan_id_error(interface: HardwareInterface, fan_id: u32, uniwill_fans: u32) -> Option<IoError> {
    match interface {
        HardwareInterface::Clevo => if fan_id < 3 {
            None
        } else {
            Some(IoError::InvalidFanId)
        },
        HardwareInterface::Uniwill => if fan_id < uniwill_fans {
            None
        } else {
            Some(IoError::InvalidFanId)
        },
        HardwareInterface::NoneFound => Some(IoError::NoInterface),
    }
}

/// Why TDP `tdp_index` cannot be read through `interface`, if it cannot: only Uniwill has
/// TDP control, with three TDPs.
pub open spec fn tdp_error(interface: HardwareInterface, tdp_index: u8) -> Option<IoError> {
    if interface != HardwareInterface::Uniwill {
        Some(IoError::TdpUnsupported)
    } else if tdp_index >= 3 {
        Some(IoError::InvalidTdpIndex)
    } else {
        None
    }
}

impl TuxedoIo {
    /// The device's interface.
    pub closed spec fn interface(&self) -> HardwareInterface {
        self.interface
    }

    /// The device's number of fans.
    pub closed spec fn fans(&self) -> u32 {
        self.fan_count
    }

    /// The write that sets fan `fan_id` to `percent`: for Clevo all three speed bytes
    /// packed, those of the other fans as read before (0 where not read), this fan's the
    /// percentage as a byte; for Uniwill the percentage held at 200, to fan 0 or 1.
    pub open spec fn fan_speed_write(&self, fan_id: u32, percent: u32, current: Seq<Option<i32>>) -> Result<
        WriteRequest,
        IoError,
    > {
        match self.interface() {
            HardwareInterface::Clevo => Ok(
                WriteRequest::ClevoFanSpeed(
                    pack_speeds(
                        clevo_byte_after(current, 0, fan_id as int, percent as int),
                        clevo_byte_after(current, 1, fan_id as int, percent as int),
                        clevo_byte_after(current, 2, fan_id as int, percent as int),
                    ) as i32,
                ),
            ),
            HardwareInterface::Uniwill => {
                let val: i32 = if percent > 200 {
                    200i32
                } else {
                    percent as i32
                };
                if fan_id == 0 {
                    Ok(WriteRequest::UniwillFanSpeed(val))
                } else if fan_id == 1 {
                    Ok(WriteRequest::UniwillFanSpeed2(val))
                } else {
                    Err(IoError::InvalidFanId)
                }
            },
            HardwareInterface::NoneFound => Err(IoError::NoInterface),
        }
    }

    /// The write that returns the fans to automatic control.
    pub open spec fn fan_auto_write(&self) -> Result<WriteRequest, IoError> {
        match self.interface() {
            HardwareInterface::Clevo => Ok(WriteRequest::ClevoFanAuto(0xF)),
            HardwareInterface::Uniwill => Ok(WriteRequest::UniwillFanAuto(1)),
            HardwareInterface::NoneFound => Err(IoError::NoInterface),
        }
    }

    /// The write that selects performance profile `profile_id` (0-based; the device
    /// counts from 1).
    pub open spec fn perf_profile_write(&self, profile_id: u32) -> Result<WriteRequest, IoError> {
        match self.interface() {
            HardwareInterface::Clevo => Ok(WriteRequest::ClevoPerfProfile((profile_id + 1) as i32)),
            HardwareInterface::Uniwill => Ok(WriteRequest::UniwillPerfProfile((profile_id + 1) as i32)),
            HardwareInterface::NoneFound => Err(IoError::NoInterface),
        }
    }

    /// The write that turns the webcam on or off; only Clevo has the switch.
    pub open spec fn webcam_write(&self, enabled: bool) -> Result<WriteRequest, IoError> {
        if self.interface() == HardwareInterface::Clevo {
            Ok(WriteRequest::ClevoWebcam(if enabled { 1i32 } else { 0i32 }))
        } else {
            Err(IoError::WebcamUnsupported)
        }
    }

    /// The device as detected.
    pub fn new(interface: HardwareInterface, fan_count: u32) -> (r: Self)
        ensures
            r.interface() == interface,
            r.fans() == fan_count,
    {
        TuxedoIo { interface, fan_count }
    }

    /// The device's interface.
    pub fn get_interface(&self) -> (r: HardwareInterface)
        ensures
            r == self.interface(),
    {
        self.interface
    }

    /// The device's number of fans.
    pub fn get_fan_count(&self) -> (r: u32)
        ensures
            r == self.fans(),
    {
        self.fan_count
    }

    /// The read that gives fan `fan_id`'s speed.
    pub fn fan_speed_request(&self, fan_id: u32) -> (r: Result<ReadRequest, IoError>)
        ensures
            match self.interface() {
                HardwareInterface::Clevo => if fan_id < 3 {
                    r == Ok::<ReadRequest, IoError>(
                        ReadRequest { magic: MAGIC_READ_CL, seq: (0x10 + fan_id) as u8, pointer_sized: true },
                    )
                } else {
                    r == Err::<ReadRequest, IoError>(IoError::InvalidFanId)
                },
                HardwareInterface::Uniwill => if fan_id < 2 {
                    r == Ok::<ReadRequest, IoError>(
                        ReadRequest { magic: MAGIC_READ_UW, seq: (0x10 + fan_id) as u8, pointer_sized: true },
                    )
                } else {
                    r == Err::<ReadRequest, IoError>(IoError::InvalidFanId)
                },
                HardwareInterface::NoneFound => r == Err::<ReadRequest, IoError>(IoError::NoInterface),
            },
    {
        match self.interface {
            HardwareInterface::Clevo => {
                if fan_id < 3 {
                    Ok(ReadRequest { magic: MAGIC_READ_CL, seq: 0x10 + fan_id as u8, pointer_sized: true })
                } else {
                    Err(IoError::InvalidFanId)
                }
            },
            HardwareInterface::Uniwill => {
                if fan_id < 2 {
                    Ok(ReadRequest { magic: MAGIC_READ_UW, seq: 0x10 + fan_id as u8, pointer_sized: true })
                } else {
                    Err(IoError::InvalidFanId)
                }
            },
            HardwareInterface::NoneFound => Err(IoError::NoInterface),
        }
    }

    /// A fan's speed in % from the word its speed read answered: for Clevo the speed byte
    /// as a percentage, for Uniwill the word itself.
    pub fn fan_speed_from_raw(&self, raw: i32) -> (r: u32)
        ensures
            self.interface() == HardwareInterface::Clevo ==> r == raw_to_percent(clevo_speed_byte(raw) as int),
            self.interface() != HardwareInterface::Clevo ==> r == raw as u32,
    {
        match self.interface {
            HardwareInterface::Clevo => clevo_raw_to_percent((raw & 0xFFi32) as u8),
            _ => raw as u32,
        }
    }

    /// Fan `fan_id`'s speed in %, given the word that its speed read (see
    /// `fan_speed_request`) answered; the fan is checked as that read checks it.
    pub fn get_fan_speed(&self, fan_id: u32, raw: i32) -> (r: Result<u32, IoError>)
        ensures
            match fan_id_error(self.interface(), fan_id, 2) {
                Some(e) => r == Err::<u32, IoError>(e),
                None => if self.interface() == HardwareInterface::Clevo {
                    r matches Ok(v) && v == raw_to_percent(clevo_speed_byte(raw) as int)
                } else {
                    r == Ok::<u32, IoError>(raw as u32)
                },
            },
    {
        match self.fan_speed_request(fan_id) {
            Err(e) => Err(e),
            Ok(_) => Ok(self.fan_speed_from_raw(raw)),
        }
    }

    /// The read that gives fan `fan_id`'s temperature.
    pub fn fan_temperature_request(&self, fan_id: u32) -> (r: Result<ReadRequest, IoError>)
        ensures
            match self.interface() {
                HardwareInterface::Clevo => if fan_id < 3 {
                    r == Ok::<ReadRequest, IoError>(
                        ReadRequest { magic: MAGIC_READ_CL, seq: (0x10 + fan_id) as u8, pointer_sized: true },
                    )
                } else {
                    r == Err::<ReadRequest, IoError>(IoError::InvalidFanId)
                },
                HardwareInterface::Uniwill => if fan_id < 2 {
                    r == Ok::<ReadRequest, IoError>(
                        ReadRequest { magic: MAGIC_READ_UW, seq: (0x12 + fan_id) as u8, pointer_sized: true },
                    )
                } else {
                    r == Err::<ReadRequest, IoError>(IoError::InvalidFanId)
                },
                HardwareInterface::NoneFound => r == Err::<ReadRequest, IoError>(IoError::NoInterface),
            },
    {
        match self.interface {
            HardwareInterface::Clevo => {
                if fan_id < 3 {
                    Ok(ReadRequest { magic: MAGIC_READ_CL, seq: 0x10 + fan_id as u8, pointer_sized: true })
                } else {
                    Err(IoError::InvalidFanId)
                }
            },
            HardwareInterface::Uniwill => {
                if fan_id < 2 {
                    Ok(ReadRequest { magic: MAGIC_READ_UW, seq: 0x12 + fan_id as u8, pointer_sized: true })
                } else {
                    Err(IoError::InvalidFanId)
                }
            },
            HardwareInterface::NoneFound => Err(IoError::NoInterface),
        }
    }

    /// A fan's temperature in °C from the word its temperature read answered: for Clevo
    /// the temperature byte, refused when at most 1; for Uniwill the word itself.
    pub fn fan_temperature_from_raw(&self, raw: i32) -> (r: Result<u32, IoError>)
        ensures
            self.interface() == HardwareInterface::Clevo ==> (if clevo_temp_byte(raw) <= 1 {
                r == Err::<u32, IoError>(IoError::FanNotAvailable)
            } else {
                r == Ok::<u32, IoError>(clevo_temp_byte(raw))
            }),
            self.interface() != HardwareInterface::Clevo ==> r == Ok::<u32, IoError>(raw as u32),
    {
        match self.interface {
            HardwareInterface::Clevo => {
                let temp2 = ((raw >> 16u32) & 0xFFi32) as u32;
                if temp2 <= 1 {
                    Err(IoError::FanNotAvailable)
                } else {
                    Ok(temp2)
                }
            },
            _ => Ok(raw as u32),
        }
    }

    /// Fan `fan_id`'s temperature in °C, given the word that its temperature read (see
    /// `fan_temperature_request`) answered; the fan is checked as that read checks it.
    pub fn get_fan_temperature(&self, fan_id: u32, raw: i32) -> (r: Result<u32, IoError>)
        ensures
            match fan_id_error(self.interface(), fan_id, 2) {
                Some(e) => r == Err::<u32, IoError>(e),
                None => if self.interface() == HardwareInterface::Clevo {
                    if clevo_temp_byte(raw) <= 1 {
                        r == Err::<u32, IoError>(IoError::FanNotAvailable)
                    } else {
                        r == Ok::<u32, IoError>(clevo_temp_byte(raw))
                    }
                } else {
                    r == Ok::<u32, IoError>(raw as u32)
                },
            },
    {
        match self.fan_temperature_request(fan_id) {
            Err(e) => Err(e),
            Ok(_) => self.fan_temperature_from_raw(raw),
        }
    }

    /// The reads of the current fan speeds that setting a Clevo fan's speed makes first:
    /// one per fan, at most three; none for another interface.
    pub fn current_speed_requests(&self) -> (r: Vec<ReadRequest>)
        ensures
            self.interface() == HardwareInterface::Clevo ==> r@.len() == (if self.fans() < 3 {
                self.fans() as int
            } else {
                3
            }),
            self.interface() != HardwareInterface::Clevo ==> r@.len() == 0,
            forall|i: int|
                0 <= i < r@.len() ==> #[trigger] r@[i] == (ReadRequest {
                    magic: MAGIC_READ_CL,
                    seq: (0x10 + i) as u8,
                    pointer_sized: true,
                }),
    {
        let mut r: Vec<ReadRequest> = Vec::new();
        if self.interface != HardwareInterface::Clevo {
            return r;
        }
        let n: u8 = if self.fan_count < 3 {
            self.fan_count as u8
        } else {
            3
        };
        let mut i: u8 = 0;
        while i < n
            invariant
                n <= 3,
                i <= n,
                r@.len() == i,
                forall|k: int|
                    0 <= k < r@.len() ==> #[trigger] r@[k] == (ReadRequest {
                        magic: MAGIC_READ_CL,
                        seq: (0x10 + k) as u8,
                        pointer_sized: true,
                    }),
            decreases n - i,
        {
            r.push(ReadRequest { magic: MAGIC_READ_CL, seq: 0x10 + i, pointer_sized: true });
            i = i + 1;
        }
        r
    }

    /// The write that sets fan `fan_id` to `speed_percent`: for Clevo all three speed
    /// bytes packed, those of the other fans as read before (0 where not read), this fan's
    /// the percentage as a byte; for Uniwill the percentage held at 200, to fan 0 or 1.
    pub fn set_fan_speed(&self, fan_id: u32, speed_percent: u32, current: &Vec<Option<i32>>) -> (r:
        Result<WriteRequest, IoError>)
        requires
            self.interface() == HardwareInterface::Clevo ==> fan_id < 3,
        ensures
            r == self.fan_speed_write(fan_id, speed_percent, current@),
    {
        match self.interface {
            HardwareInterface::Clevo => {
                let b0 = self.current_byte(current, 0, fan_id, speed_percent);
                let b1 = self.current_byte(current, 1, fan_id, speed_percent);
                let b2 = self.current_byte(current, 2, fan_id, speed_percent);
                Ok(WriteRequest::ClevoFanSpeed(pack_clevo_speeds(b0, b1, b2)))
            },
            HardwareInterface::Uniwill => {
                let val: i32 = if speed_percent > 200 {
                    200
                } else {
                    speed_percent as i32
                };
                if fan_id == 0 {
                    Ok(WriteRequest::UniwillFanSpeed(val))
                } else if fan_id == 1 {
                    Ok(WriteRequest::UniwillFanSpeed2(val))
                } else {
                    Err(IoError::InvalidFanId)
                }
            },
            HardwareInterface::NoneFound => Err(IoError::NoInterface),
        }
    }

    fn current_byte(&self, current: &Vec<Option<i32>>, i: usize, fan_id: u32, speed_percent: u32) -> (r: u8)
        requires
            i < 3,
        ensures
            r == clevo_byte_after(current@, i as int, fan_id as int, speed_percent as int),
    {
        if i as u32 == fan_id {
            clevo_percent_to_raw(speed_percent)
        } else if i < current.len() {
            match current[i] {
                Some(raw) => (raw & 0xFFi32) as u8,
                None => 0,
            }
        } else {
            0
        }
    }

    /// The write that returns the fans to automatic control.
    pub fn set_fan_auto(&self) -> (r: Result<WriteRequest, IoError>)
        ensures
            r == self.fan_auto_write(),
    {
        match self.interface {
            HardwareInterface::Clevo => Ok(WriteRequest::ClevoFanAuto(0xF)),
            HardwareInterface::Uniwill => Ok(WriteRequest::UniwillFanAuto(1)),
            HardwareInterface::NoneFound => Err(IoError::NoInterface),
        }
    }
}

/// Names of the performance profiles of a device: three fixed ones for Clevo; for Uniwill
/// "Power Saving" and "Enthusiast" when at least two are available, and "Overboost" too
/// when at least three; none without an interface.
pub open spec fn profile_names(interface: HardwareInterface, uw_available: i32) -> Seq<Seq<char>> {
    match interface {
        HardwareInterface::Clevo => seq!["Power Saving"@, "Balanced"@, "Performance"@],
        HardwareInterface::Uniwill => if uw_available >= 3 {
            seq!["Power Saving"@, "Enthusiast"@, "Overboost"@]
        } else if uw_available >= 2 {
            seq!["Power Saving"@, "Enthusiast"@]
        } else {
            Seq::empty()
        },
        HardwareInterface::NoneFound => Seq::empty(),
    }
}

impl TuxedoIo {
    /// The read of the number of available profiles, which only Uniwill makes.
    pub fn profiles_request(&self) -> (r: Option<ReadRequest>)
        ensures
            self.interface() == HardwareInterface::Uniwill ==> r == Some(
                ReadRequest { magic: MAGIC_READ_UW, seq: 0x21, pointer_sized: false },
            ),
            self.interface() != HardwareInterface::Uniwill ==> r is None,
    {
        if self.interface == HardwareInterface::Uniwill {
            Some(ReadRequest { magic: MAGIC_READ_UW, seq: 0x21, pointer_sized: false })
        } else {
            None
        }
    }

    /// The performance profiles of the device, given the answer of the Uniwill read of the
    /// number of available profiles (ignored for another interface).
    pub fn get_available_profiles(&self, uw_available: i32) -> (r: Vec<String>)
        ensures
            crate::types::string_views(r@) == profile_names(self.interface(), uw_available),
    {
        let mut profiles: Vec<String> = Vec::new();
        match self.interface {
            HardwareInterface::Clevo => {
                profiles.push(String::from_str("Power Saving"));
                profiles.push(String::from_str("Balanced"));
                profiles.push(String::from_str("Performance"));
            },
            HardwareInterface::Uniwill => {
                if uw_available >= 2 {
                    profiles.push(String::from_str("Power Saving"));
                    profiles.push(String::from_str("Enthusiast"));
                }
                if uw_available >= 3 {
                    profiles.push(String::from_str("Overboost"));
                }
            },
            HardwareInterface::NoneFound => {},
        }
        assert(crate::types::string_views(profiles@) =~= profile_names(self.interface(), uw_available));
        profiles
    }

    /// The write that selects performance profile `profile_id` (0-based; the device counts
    /// from 1).
    pub fn set_performance_profile(&self, profile_id: u32) -> (r: Result<WriteRequest, IoError>)
        requires
            self.interface() != HardwareInterface::NoneFound ==> profile_id < u32::MAX,
        ensures
            r == self.perf_profile_write(profile_id),
    {
        match self.interface {
            HardwareInterface::Clevo => Ok(WriteRequest::ClevoPerfProfile((profile_id + 1) as i32)),
            HardwareInterface::Uniwill => Ok(WriteRequest::UniwillPerfProfile((profile_id + 1) as i32)),
            HardwareInterface::NoneFound => Err(IoError::NoInterface),
        }
    }

    /// The read of TDP `tdp_index` (0, 1 or 2): its value (`which` 0), minimum (1) or
    /// maximum (2); only Uniwill has TDP control.
    pub fn tdp_request(&self, tdp_index: u8, which: u8) -> (r: Result<ReadRequest, IoError>)
        requires
            which < 3,
        ensures
            self.interface() != HardwareInterface::Uniwill ==> r == Err::<ReadRequest, IoError>(
                IoError::TdpUnsupported,
            ),
            self.interface() == HardwareInterface::Uniwill && tdp_index >= 3 ==> r == Err::<
                ReadRequest,
                IoError,
            >(IoError::InvalidTdpIndex),
            self.interface() == HardwareInterface::Uniwill && tdp_index < 3 ==> r == Ok::<
                ReadRequest,
                IoError,
            >(ReadRequest { magic: MAGIC_READ_UW, seq: (0x18 + 3 * which + tdp_index) as u8, pointer_sized: false }),
    {
        if self.interface != HardwareInterface::Uniwill {
            return Err(IoError::TdpUnsupported);
        }
        if tdp_index >= 3 {
            return Err(IoError::InvalidTdpIndex);
        }
        Ok(ReadRequest { magic: MAGIC_READ_UW, seq: 0x18 + 3 * which + tdp_index, pointer_sized: false })
    }

    /// The value of TDP `tdp_index`, given the word that its read (`tdp_request` with
    /// `which` 0) answered.
    pub fn get_tdp(&self, tdp_index: u8, raw: i32) -> (r: Result<i32, IoError>)
        ensures
            match tdp_error(self.interface(), tdp_index) {
                Some(e) => r == Err::<i32, IoError>(e),
                None => r == Ok::<i32, IoError>(raw),
            },
    {
        match self.tdp_request(tdp_index, 0) {
            Err(e) => Err(e),
            Ok(_) => Ok(raw),
        }
    }

    /// The minimum of TDP `tdp_index`, given the word that its read (`tdp_request` with
    /// `which` 1) answered.
    pub fn get_tdp_min(&self, tdp_index: u8, raw: i32) -> (r: Result<i32, IoError>)
        ensures
            match tdp_error(self.interface(), tdp_index) {
                Some(e) => r == Err::<i32, IoError>(e),
                None => r == Ok::<i32, IoError>(raw),
            },
    {
        match self.tdp_request(tdp_index, 1) {
            Err(e) => Err(e),
            Ok(_) => Ok(raw),
        }
    }

    /// The maximum of TDP `tdp_index`, given the word that its read (`tdp_request` with
    /// `which` 2) answered.
    pub fn get_tdp_max(&self, tdp_index: u8, raw: i32) -> (r: Result<i32, IoError>)
        ensures
            match tdp_error(self.interface(), tdp_index) {
                Some(e) => r == Err::<i32, IoError>(e),
                None => r == Ok::<i32, IoError>(raw),
            },
    {
        match self.tdp_request(tdp_index, 2) {
            Err(e) => Err(e),
            Ok(_) => Ok(raw),
        }
    }

    /// The write that sets TDP `tdp_index` to `value`; only Uniwill has TDP control.
    pub fn set_tdp(&self, tdp_index: u8, value: i32) -> (r: Result<WriteRequest, IoError>)
        ensures
            self.interface() != HardwareInterface::Uniwill ==> r == Err::<WriteRequest, IoError>(
                IoError::TdpUnsupported,
            ),
            self.interface() == HardwareInterface::Uniwill && tdp_index >= 3 ==> r == Err::<
                WriteRequest,
                IoError,
            >(IoError::InvalidTdpIndex),
            self.interface() == HardwareInterface::Uniwill && tdp_index < 3 ==> r == Ok::<
                WriteRequest,
                IoError,
            >(WriteRequest::UniwillTdp { index: tdp_index, value }),
    {
        if self.interface != HardwareInterface::Uniwill {
            return Err(IoError::TdpUnsupported);
        }
        if tdp_index >= 3 {
            return Err(IoError::InvalidTdpIndex);
        }
        Ok(WriteRequest::UniwillTdp { index: tdp_index, value })
    }

    /// The read of the webcam switch; only Clevo has it.
    pub fn webcam_request(&self) -> (r: Result<ReadRequest, IoError>)
        ensures
            self.interface() == HardwareInterface::Clevo ==> r == Ok::<ReadRequest, IoError>(
                ReadRequest { magic: MAGIC_READ_CL, seq: 0x13, pointer_sized: false },
            ),
            self.interface() != HardwareInterface::Clevo ==> r == Err::<ReadRequest, IoError>(
                IoError::WebcamUnsupported,
            ),
    {
        if self.interface != HardwareInterface::Clevo {
            return Err(IoError::WebcamUnsupported);
        }
        Ok(ReadRequest { magic: MAGIC_READ_CL, seq: 0x13, pointer_sized: false })
    }

    /// The webcam is on when its switch reads non-zero.
    pub fn webcam_state_from_raw(&self, raw: i32) -> (r: bool)
        ensures
            r == (raw != 0),
    {
        raw != 0
    }

    /// The write that turns the webcam on or off; only Clevo has it.
    pub fn set_webcam_state(&self, enabled: bool) -> (r: Result<WriteRequest, IoError>)
        ensures
            r == self.webcam_write(enabled),
    {
        if self.interface != HardwareInterface::Clevo {
            return Err(IoError::WebcamUnsupported);
        }
        let value: i32 = if enabled {
            1
        } else {
            0
        };
        Ok(WriteRequest::ClevoWebcam(value))
    }
}

/// Setting Clevo fan `fan_id` to `percent` and reading that fan's speed byte back gives
/// the percentage, held at 100; the other fans keep the bytes read before.
pub proof fn lemma_clevo_set_then_get(current: Seq<Option<i32>>, fan_id: int, percent: int, other: int)
    requires
        0 <= fan_id < 3,
        0 <= other < 3,
        other != fan_id,
        percent >= 0,
    ensures
        raw_to_percent(clevo_byte_after(current, fan_id, fan_id, percent) as int) == if percent
            > 100 {
            100
        } else {
            percent
        },
        clevo_byte_after(current, other, fan_id, percent) == (if other < current.len()
            && current[other] is Some {
            clevo_speed_byte(current[other]->0)
        } else {
            0u8
        }),
{
    lemma_percent_round_trip(percent);
}

/// Each fan's speed byte is found again in the packed word, fan `i` at bits `8 * i`.
pub proof fn lemma_pack_unpack(b0: u8, b1: u8, b2: u8)
    ensures
        pack_speeds(b0, b1, b2) % 256 == b0,
        (pack_speeds(b0, b1, b2) / 256) % 256 == b1,
        pack_speeds(b0, b1, b2) / 65536 == b2,
{
    let p = pack_speeds(b0, b1, b2);
    assert(p % 256 == b0 && (p / 256) % 256 == b1 && p / 65536 == b2) by (nonlinear_arith)
        requires
            p == b0 + 256 * b1 + 65536 * b2,
            0 <= b0 < 256,
            0 <= b1 < 256,
            0 <= b2 < 256,
    ;
}

/// Speed byte `i` after setting fan `fan_id` to `percent`: that fan's percentage as a
/// byte, another fan's speed byte as read before, 0 where it was not read.
pub open spec fn clevo_byte_after(current: Seq<Option<i32>>, i: int, fan_id: int, percent: int) -> u8 {
    if i == fan_id {
        percent_to_raw(percent) as u8
    } else if i < current.len() && current[i] is Some {
        clevo_speed_byte(current[i]->0)
    } else {
        0
    }
}


proof fn lemma_leading_present_bounds(raws: Seq<i32>, n: int)
    ensures
        0 <= leading_present(raws, n),
        n >= 0 ==> leading_present(raws, n) <= n,
    decreases n,
{
    if n > 0 {
        lemma_leading_present_bounds(raws, n - 1);
    }
}

/// A device has at most three fans: Clevo at most three, Uniwill at most two, a device
/// without interface none.
pub proof fn lemma_fan_count_bounds(
    interface: HardwareInterface,
    clevo_raws: Seq<i32>,
    uw_first_ok: bool,
    uw_second_ok: bool,
)
    ensures
        0 <= fan_count_of(interface, clevo_raws, uw_first_ok, uw_second_ok) <= 3,
        interface == HardwareInterface::Uniwill ==> fan_count_of(interface, clevo_raws, uw_first_ok, uw_second_ok) <= 2,
        interface == HardwareInterface::NoneFound ==> fan_count_of(interface, clevo_raws, uw_first_ok, uw_second_ok) == 0,
{
    let n = if clevo_raws.len() < 3 {
        clevo_raws.len() as int
    } else {
        3
    };
    lemma_leading_present_bounds(clevo_raws, n);
}

} // verus!
