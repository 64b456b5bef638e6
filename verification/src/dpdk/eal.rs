//! The error numbers of the driver's environment, by name.

use vstd::prelude::*;

verus! {

/// An error number of the operating system or of the driver.
#[derive(Debug, Clone, Copy, PartialEq, Eq, Structural)]
pub enum RteErrnoValue {
    EPERM,
    ENOENT,
    ESRCH,
    EINTR,
    EIO,
    ENXIO,
    E2BIG,
    ENOEXEC,
    EBADF,
    ECHILD,
    EAGAIN,
    ENOMEM,
    EACCES,
    EFAULT,
    ENOTBLK,
    EBUSY,
    EEXIST,
    EXDEV,
    ENODEV,
    ENOTDIR,
    EISDIR,
    EINVAL,
    ENFILE,
    EMFILE,
    ENOTTY,
    ETXTBSY,
    EFBIG,
    ENOSPC,
    ESPIPE,
    EROFS,
    EMLINK,
    EPIPE,
    EDOM,
    ERANGE,
    EDEADLK,
    ENAMETOOLONG,
    ENOLCK,
    ENOSYS,
    ENOTEMPTY,
    ELOOP,
    ENOMSG,
    EIDRM,
    ECHRNG,
    EL2NSYNC,
    EL3HLT,
    EL3RST,
    ELNRNG,
    EUNATCH,
    ENOCSI,
    EL2HLT,
    EBADE,
    EBADR,
    EXFULL,
    ENOANO,
    EBADRQC,
    EBADSLT,
    EBFONT,
    ENOSTR,
    ENODATA,
    ETIME,
    ENOSR,
    ENONET,
    ENOPKG,
    EREMOTE,
    ENOLINK,
    EADV,
    ESRMNT,
    ECOMM,
    EPROTO,
    EMULTIHOP,
    EDOTDOT,
    EBADMSG,
    EOVERFLOW,
    ENOTUNIQ,
    EBADFD,
    EREMCHG,
    ELIBACC,
    ELIBBAD,
    ELIBSCN,
    ELIBMAX,
    ELIBEXEC,
    EILSEQ,
    ERESTART,
    ESTRPIPE,
    EUSERS,
    ENOTSOCK,
    EDESTADDRREQ,
    EMSGSIZE,
    EPROTOTYPE,
    ENOPROTOOPT,
    EPROTONOSUPPORT,
    ESOCKTNOSUPPORT,
    EOPNOTSUPP,
    EPFNOSUPPORT,
    EAFNOSUPPORT,
    EADDRINUSE,
    EADDRNOTAVAIL,
    ENETDOWN,
    ENETUNREACH,
    ENETRESET,
    ECONNABORTED,
    ECONNRESET,
    ENOBUFS,
    EISCONN,
    ENOTCONN,
    ESHUTDOWN,
    ETOOMANYREFS,
    ETIMEDOUT,
    ECONNREFUSED,
    EHOSTDOWN,
    EHOSTUNREACH,
    EALREADY,
    EINPROGRESS,
    ESTALE,
    EUCLEAN,
    ENOTNAM,
    ENAVAIL,
    EISNAM,
    EREMOTEIO,
    EDQUOT,
    ENOMEDIUM,
    EMEDIUMTYPE,
    ECANCELED,
    ENOKEY,
    EKEYEXPIRED,
    EKEYREVOKED,
    EKEYREJECTED,
    EOWNERDEAD,
    ENOTRECOVERABLE,
    ERFKILL,
    EHWPOISON,
    RteMinErrno,
    ERteSecondary,
    ERteNoConfig,
    RteMaxErrno,
}

impl RteErrnoValue {
    /// The number of the error.
    pub open spec fn spec_code(self) -> u32 {
        match self {
            RteErrnoValue::EPERM => 1,
            RteErrnoValue::ENOENT => 2,
            RteErrnoValue::ESRCH => 3,
            RteErrnoValue::EINTR => 4,
            RteErrnoValue::EIO => 5,
            RteErrnoValue::ENXIO => 6,
            RteErrnoValue::E2BIG => 7,
            RteErrnoValue::ENOEXEC => 8,
            RteErrnoValue::EBADF => 9,
            RteErrnoValue::ECHILD => 10,
            RteErrnoValue::EAGAIN => 11,
            RteErrnoValue::ENOMEM => 12,
            RteErrnoValue::EACCES => 13,
            RteErrnoValue::EFAULT => 14,
            RteErrnoValue::ENOTBLK => 15,
            RteErrnoValue::EBUSY => 16,
            RteErrnoValue::EEXIST => 17,
            RteErrnoValue::EXDEV => 18,
            RteErrnoValue::ENODEV => 19,
            RteErrnoValue::ENOTDIR => 20,
            RteErrnoValue::EISDIR => 21,
            RteErrnoValue::EINVAL => 22,
            RteErrnoValue::ENFILE => 23,
            RteErrnoValue::EMFILE => 24,
            RteErrnoValue::ENOTTY => 25,
            RteErrnoValue::ETXTBSY => 26,
            RteErrnoValue::EFBIG => 27,
            RteErrnoValue::ENOSPC => 28,
            RteErrnoValue::ESPIPE => 29,
            RteErrnoValue::EROFS => 30,
            RteErrnoValue::EMLINK => 31,
            RteErrnoValue::EPIPE => 32,
            RteErrnoValue::EDOM => 33,
            RteErrnoValue::ERANGE => 34,
            RteErrnoValue::EDEADLK => 35,
            RteErrnoValue::ENAMETOOLONG => 36,
            RteErrnoValue::ENOLCK => 37,
            RteErrnoValue::ENOSYS => 38,
            RteErrnoValue::ENOTEMPTY => 39,
            RteErrnoValue::ELOOP => 40,
            RteErrnoValue::ENOMSG => 42,
            RteErrnoValue::EIDRM => 43,
            RteErrnoValue::ECHRNG => 44,
            RteErrnoValue::EL2NSYNC => 45,
            RteErrnoValue::EL3HLT => 46,
            RteErrnoValue::EL3RST => 47,
            RteErrnoValue::ELNRNG => 48,
            RteErrnoValue::EUNATCH => 49,
            RteErrnoValue::ENOCSI => 50,
            RteErrnoValue::EL2HLT => 51,
            RteErrnoValue::EBADE => 52,
            RteErrnoValue::EBADR => 53,
            RteErrnoValue::EXFULL => 54,
            RteErrnoValue::ENOANO => 55,
            RteErrnoValue::EBADRQC => 56,
            RteErrnoValue::EBADSLT => 57,
            RteErrnoValue::EBFONT => 59,
            RteErrnoValue::ENOSTR => 60,
            RteErrnoValue::ENODATA => 61,
            RteErrnoValue::ETIME => 62,
            RteErrnoValue::ENOSR => 63,
            RteErrnoValue::ENONET => 64,
            RteErrnoValue::ENOPKG => 65,
            RteErrnoValue::EREMOTE => 66,
            RteErrnoValue::ENOLINK => 67,
            RteErrnoValue::EADV => 68,
            RteErrnoValue::ESRMNT => 69,
            RteErrnoValue::ECOMM => 70,
            RteErrnoValue::EPROTO => 71,
            RteErrnoValue::EMULTIHOP => 72,
            RteErrnoValue::EDOTDOT => 73,
            RteErrnoValue::EBADMSG => 74,
            RteErrnoValue::EOVERFLOW => 75,
            RteErrnoValue::ENOTUNIQ => 76,
            RteErrnoValue::EBADFD => 77,
            RteErrnoValue::EREMCHG => 78,
            RteErrnoValue::ELIBACC => 79,
            RteErrnoValue::ELIBBAD => 80,
            RteErrnoValue::ELIBSCN => 81,
            RteErrnoValue::ELIBMAX => 82,
            RteErrnoValue::ELIBEXEC => 83,
            RteErrnoValue::EILSEQ => 84,
            RteErrnoValue::ERESTART => 85,
            RteErrnoValue::ESTRPIPE => 86,
            RteErrnoValue::EUSERS => 87,
            RteErrnoValue::ENOTSOCK => 88,
            RteErrnoValue::EDESTADDRREQ => 89,
            RteErrnoValue::EMSGSIZE => 90,
            RteErrnoValue::EPROTOTYPE => 91,
            RteErrnoValue::ENOPROTOOPT => 92,
            RteErrnoValue::EPROTONOSUPPORT => 93,
            RteErrnoValue::ESOCKTNOSUPPORT => 94,
            RteErrnoValue::EOPNOTSUPP => 95,
            RteErrnoValue::EPFNOSUPPORT => 96,
            RteErrnoValue::EAFNOSUPPORT => 97,
            RteErrnoValue::EADDRINUSE => 98,
            RteErrnoValue::EADDRNOTAVAIL => 99,
            RteErrnoValue::ENETDOWN => 100,
            RteErrnoValue::ENETUNREACH => 101,
            RteErrnoValue::ENETRESET => 102,
            RteErrnoValue::ECONNABORTED => 103,
            RteErrnoValue::ECONNRESET => 104,
            RteErrnoValue::ENOBUFS => 105,
            RteErrnoValue::EISCONN => 106,
            RteErrnoValue::ENOTCONN => 107,
            RteErrnoValue::ESHUTDOWN => 108,
            RteErrnoValue::ETOOMANYREFS => 109,
            RteErrnoValue::ETIMEDOUT => 110,
            RteErrnoValue::ECONNREFUSED => 111,
            RteErrnoValue::EHOSTDOWN => 112,
            RteErrnoValue::EHOSTUNREACH => 113,
            RteErrnoValue::EALREADY => 114,
            RteErrnoValue::EINPROGRESS => 115,
            RteErrnoValue::ESTALE => 116,
            RteErrnoValue::EUCLEAN => 117,
            RteErrnoValue::ENOTNAM => 118,
            RteErrnoValue::ENAVAIL => 119,
            RteErrnoValue::EISNAM => 120,
            RteErrnoValue::EREMOTEIO => 121,
            RteErrnoValue::EDQUOT => 122,
            RteErrnoValue::ENOMEDIUM => 123,
            RteErrnoValue::EMEDIUMTYPE => 124,
            RteErrnoValue::ECANCELED => 125,
            RteErrnoValue::ENOKEY => 126,
            RteErrnoValue::EKEYEXPIRED => 127,
            RteErrnoValue::EKEYREVOKED => 128,
            RteErrnoValue::EKEYREJECTED => 129,
            RteErrnoValue::EOWNERDEAD => 130,
            RteErrnoValue::ENOTRECOVERABLE => 131,
            RteErrnoValue::ERFKILL => 132,
            RteErrnoValue::EHWPOISON => 133,
            RteErrnoValue::RteMinErrno => 1000,
            RteErrnoValue::ERteSecondary => 1001,
            RteErrnoValue::ERteNoConfig => 1002,
            RteErrnoValue::RteMaxErrno => 1003,
        }
    }

    /// The number of the error.
    pub fn code(&self) -> (code: u32)
        ensures
            code == self.spec_code(),
    {
        match self {
            RteErrnoValue::EPERM => 1,
            RteErrnoValue::ENOENT => 2,
            RteErrnoValue::ESRCH => 3,
            RteErrnoValue::EINTR => 4,
            RteErrnoValue::EIO => 5,
            RteErrnoValue::ENXIO => 6,
            RteErrnoValue::E2BIG => 7,
            RteErrnoValue::ENOEXEC => 8,
            RteErrnoValue::EBADF => 9,
            RteErrnoValue::ECHILD => 10,
            RteErrnoValue::EAGAIN => 11,
            RteErrnoValue::ENOMEM => 12,
            RteErrnoValue::EACCES => 13,
            RteErrnoValue::EFAULT => 14,
            RteErrnoValue::ENOTBLK => 15,
            RteErrnoValue::EBUSY => 16,
            RteErrnoValue::EEXIST => 17,
            RteErrnoValue::EXDEV => 18,
            RteErrnoValue::ENODEV => 19,
            RteErrnoValue::ENOTDIR => 20,
            RteErrnoValue::EISDIR => 21,
            RteErrnoValue::EINVAL => 22,
            RteErrnoValue::ENFILE => 23,
            RteErrnoValue::EMFILE => 24,
            RteErrnoValue::ENOTTY => 25,
            RteErrnoValue::ETXTBSY => 26,
            RteErrnoValue::EFBIG => 27,
            RteErrnoValue::ENOSPC => 28,
            RteErrnoValue::ESPIPE => 29,
            RteErrnoValue::EROFS => 30,
            RteErrnoValue::EMLINK => 31,
            RteErrnoValue::EPIPE => 32,
            RteErrnoValue::EDOM => 33,
            RteErrnoValue::ERANGE => 34,
            RteErrnoValue::EDEADLK => 35,
            RteErrnoValue::ENAMETOOLONG => 36,
            RteErrnoValue::ENOLCK => 37,
            RteErrnoValue::ENOSYS => 38,
            RteErrnoValue::ENOTEMPTY => 39,
            RteErrnoValue::ELOOP => 40,
            RteErrnoValue::ENOMSG => 42,
            RteErrnoValue::EIDRM => 43,
            RteErrnoValue::ECHRNG => 44,
            RteErrnoValue::EL2NSYNC => 45,
            RteErrnoValue::EL3HLT => 46,
            RteErrnoValue::EL3RST => 47,
            RteErrnoValue::ELNRNG => 48,
            RteErrnoValue::EUNATCH => 49,
            RteErrnoValue::ENOCSI => 50,
            RteErrnoValue::EL2HLT => 51,
            RteErrnoValue::EBADE => 52,
            RteErrnoValue::EBADR => 53,
            RteErrnoValue::EXFULL => 54,
            RteErrnoValue::ENOANO => 55,
            RteErrnoValue::EBADRQC => 56,
            RteErrnoValue::EBADSLT => 57,
            RteErrnoValue::EBFONT => 59,
            RteErrnoValue::ENOSTR => 60,
            RteErrnoValue::ENODATA => 61,
            RteErrnoValue::ETIME => 62,
            RteErrnoValue::ENOSR => 63,
            RteErrnoValue::ENONET => 64,
            RteErrnoValue::ENOPKG => 65,
            RteErrnoValue::EREMOTE => 66,
            RteErrnoValue::ENOLINK => 67,
            RteErrnoValue::EADV => 68,
            RteErrnoValue::ESRMNT => 69,
            RteErrnoValue::ECOMM => 70,
            RteErrnoValue::EPROTO => 71,
            RteErrnoValue::EMULTIHOP => 72,
            RteErrnoValue::EDOTDOT => 73,
            RteErrnoValue::EBADMSG => 74,
            RteErrnoValue::EOVERFLOW => 75,
            RteErrnoValue::ENOTUNIQ => 76,
            RteErrnoValue::EBADFD => 77,
            RteErrnoValue::EREMCHG => 78,
            RteErrnoValue::ELIBACC => 79,
            RteErrnoValue::ELIBBAD => 80,
            RteErrnoValue::ELIBSCN => 81,
            RteErrnoValue::ELIBMAX => 82,
            RteErrnoValue::ELIBEXEC => 83,
            RteErrnoValue::EILSEQ => 84,
            RteErrnoValue::ERESTART => 85,
            RteErrnoValue::ESTRPIPE => 86,
            RteErrnoValue::EUSERS => 87,
            RteErrnoValue::ENOTSOCK => 88,
            RteErrnoValue::EDESTADDRREQ => 89,
            RteErrnoValue::EMSGSIZE => 90,
            RteErrnoValue::EPROTOTYPE => 91,
            RteErrnoValue::ENOPROTOOPT => 92,
            RteErrnoValue::EPROTONOSUPPORT => 93,
            RteErrnoValue::ESOCKTNOSUPPORT => 94,
            RteErrnoValue::EOPNOTSUPP => 95,
            RteErrnoValue::EPFNOSUPPORT => 96,
            RteErrnoValue::EAFNOSUPPORT => 97,
            RteErrnoValue::EADDRINUSE => 98,
            RteErrnoValue::EADDRNOTAVAIL => 99,
            RteErrnoValue::ENETDOWN => 100,
            RteErrnoValue::ENETUNREACH => 101,
            RteErrnoValue::ENETRESET => 102,
            RteErrnoValue::ECONNABORTED => 103,
            RteErrnoValue::ECONNRESET => 104,
            RteErrnoValue::ENOBUFS => 105,
            RteErrnoValue::EISCONN => 106,
            RteErrnoValue::ENOTCONN => 107,
            RteErrnoValue::ESHUTDOWN => 108,
            RteErrnoValue::ETOOMANYREFS => 109,
            RteErrnoValue::ETIMEDOUT => 110,
            RteErrnoValue::ECONNREFUSED => 111,
            RteErrnoValue::EHOSTDOWN => 112,
            RteErrnoValue::EHOSTUNREACH => 113,
            RteErrnoValue::EALREADY => 114,
            RteErrnoValue::EINPROGRESS => 115,
            RteErrnoValue::ESTALE => 116,
            RteErrnoValue::EUCLEAN => 117,
            RteErrnoValue::ENOTNAM => 118,
            RteErrnoValue::ENAVAIL => 119,
            RteErrnoValue::EISNAM => 120,
            RteErrnoValue::EREMOTEIO => 121,
            RteErrnoValue::EDQUOT => 122,
            RteErrnoValue::ENOMEDIUM => 123,
            RteErrnoValue::EMEDIUMTYPE => 124,
            RteErrnoValue::ECANCELED => 125,
            RteErrnoValue::ENOKEY => 126,
            RteErrnoValue::EKEYEXPIRED => 127,
            RteErrnoValue::EKEYREVOKED => 128,
            RteErrnoValue::EKEYREJECTED => 129,
            RteErrnoValue::EOWNERDEAD => 130,
            RteErrnoValue::ENOTRECOVERABLE => 131,
            RteErrnoValue::ERFKILL => 132,
            RteErrnoValue::EHWPOISON => 133,
            RteErrnoValue::RteMinErrno => 1000,
            RteErrnoValue::ERteSecondary => 1001,
            RteErrnoValue::ERteNoConfig => 1002,
            RteErrnoValue::RteMaxErrno => 1003,
        }
    }

    /// The error with the number `code`, if there is one.
    pub fn from_u32(code: u32) -> (found: Option<RteErrnoValue>)
        ensures
            match found {
                Some(error) => error.spec_code() == code,
                None => forall|error: RteErrnoValue| error.spec_code() != code,
            },
    {
        match code {
            1 => Some(RteErrnoValue::EPERM),
            2 => Some(RteErrnoValue::ENOENT),
            3 => Some(RteErrnoValue::ESRCH),
            4 => Some(RteErrnoValue::EINTR),
            5 => Some(RteErrnoValue::EIO),
            6 => Some(RteErrnoValue::ENXIO),
            7 => Some(RteErrnoValue::E2BIG),
            8 => Some(RteErrnoValue::ENOEXEC),
            9 => Some(RteErrnoValue::EBADF),
            10 => Some(RteErrnoValue::ECHILD),
            11 => Some(RteErrnoValue::EAGAIN),
            12 => Some(RteErrnoValue::ENOMEM),
            13 => Some(RteErrnoValue::EACCES),
            14 => Some(RteErrnoValue::EFAULT),
            15 => Some(RteErrnoValue::ENOTBLK),
            16 => Some(RteErrnoValue::EBUSY),
            17 => Some(RteErrnoValue::EEXIST),
            18 => Some(RteErrnoValue::EXDEV),
            19 => Some(RteErrnoValue::ENODEV),
            20 => Some(RteErrnoValue::ENOTDIR),
            21 => Some(RteErrnoValue::EISDIR),
            22 => Some(RteErrnoValue::EINVAL),
            23 => Some(RteErrnoValue::ENFILE),
            24 => Some(RteErrnoValue::EMFILE),
            25 => Some(RteErrnoValue::ENOTTY),
            26 => Some(RteErrnoValue::ETXTBSY),
            27 => Some(RteErrnoValue::EFBIG),
            28 => Some(RteErrnoValue::ENOSPC),
            29 => Some(RteErrnoValue::ESPIPE),
            30 => Some(RteErrnoValue::EROFS),
            31 => Some(RteErrnoValue::EMLINK),
            32 => Some(RteErrnoValue::EPIPE),
            33 => Some(RteErrnoValue::EDOM),
            34 => Some(RteErrnoValue::ERANGE),
            35 => Some(RteErrnoValue::EDEADLK),
            36 => Some(RteErrnoValue::ENAMETOOLONG),
            37 => Some(RteErrnoValue::ENOLCK),
            38 => Some(RteErrnoValue::ENOSYS),
            39 => Some(RteErrnoValue::ENOTEMPTY),
            40 => Some(RteErrnoValue::ELOOP),
            42 => Some(RteErrnoValue::ENOMSG),
            43 => Some(RteErrnoValue::EIDRM),
            44 => Some(RteErrnoValue::ECHRNG),
            45 => Some(RteErrnoValue::EL2NSYNC),
            46 => Some(RteErrnoValue::EL3HLT),
            47 => Some(RteErrnoValue::EL3RST),
            48 => Some(RteErrnoValue::ELNRNG),
            49 => Some(RteErrnoValue::EUNATCH),
            50 => Some(RteErrnoValue::ENOCSI),
            51 => Some(RteErrnoValue::EL2HLT),
            52 => Some(RteErrnoValue::EBADE),
            53 => Some(RteErrnoValue::EBADR),
            54 => Some(RteErrnoValue::EXFULL),
            55 => Some(RteErrnoValue::ENOANO),
            56 => Some(RteErrnoValue::EBADRQC),
            57 => Some(RteErrnoValue::EBADSLT),
            59 => Some(RteErrnoValue::EBFONT),
            60 => Some(RteErrnoValue::ENOSTR),
            61 => Some(RteErrnoValue::ENODATA),
            62 => Some(RteErrnoValue::ETIME),
            63 => Some(RteErrnoValue::ENOSR),
            64 => Some(RteErrnoValue::ENONET),
            65 => Some(RteErrnoValue::ENOPKG),
            66 => Some(RteErrnoValue::EREMOTE),
            67 => Some(RteErrnoValue::ENOLINK),
            68 => Some(RteErrnoValue::EADV),
            69 => Some(RteErrnoValue::ESRMNT),
            70 => Some(RteErrnoValue::ECOMM),
            71 => Some(RteErrnoValue::EPROTO),
            72 => Some(RteErrnoValue::EMULTIHOP),
            73 => Some(RteErrnoValue::EDOTDOT),
            74 => Some(RteErrnoValue::EBADMSG),
            75 => Some(RteErrnoValue::EOVERFLOW),
            76 => Some(RteErrnoValue::ENOTUNIQ),
            77 => Some(RteErrnoValue::EBADFD),
            78 => Some(RteErrnoValue::EREMCHG),
            79 => Some(RteErrnoValue::ELIBACC),
            80 => Some(RteErrnoValue::ELIBBAD),
            81 => Some(RteErrnoValue::ELIBSCN),
            82 => Some(RteErrnoValue::ELIBMAX),
            83 => Some(RteErrnoValue::ELIBEXEC),
            84 => Some(RteErrnoValue::EILSEQ),
            85 => Some(RteErrnoValue::ERESTART),
            86 => Some(RteErrnoValue::ESTRPIPE),
            87 => Some(RteErrnoValue::EUSERS),
            88 => Some(RteErrnoValue::ENOTSOCK),
            89 => Some(RteErrnoValue::EDESTADDRREQ),
            90 => Some(RteErrnoValue::EMSGSIZE),
            91 => Some(RteErrnoValue::EPROTOTYPE),
            92 => Some(RteErrnoValue::ENOPROTOOPT),
            93 => Some(RteErrnoValue::EPROTONOSUPPORT),
            94 => Some(RteErrnoValue::ESOCKTNOSUPPORT),
            95 => Some(RteErrnoValue::EOPNOTSUPP),
            96 => Some(RteErrnoValue::EPFNOSUPPORT),
            97 => Some(RteErrnoValue::EAFNOSUPPORT),
            98 => Some(RteErrnoValue::EADDRINUSE),
            99 => Some(RteErrnoValue::EADDRNOTAVAIL),
            100 => Some(RteErrnoValue::ENETDOWN),
            101 => Some(RteErrnoValue::ENETUNREACH),
            102 => Some(RteErrnoValue::ENETRESET),
            103 => Some(RteErrnoValue::ECONNABORTED),
            104 => Some(RteErrnoValue::ECONNRESET),
            105 => Some(RteErrnoValue::ENOBUFS),
            106 => Some(RteErrnoValue::EISCONN),
            107 => Some(RteErrnoValue::ENOTCONN),
            108 => Some(RteErrnoValue::ESHUTDOWN),
            109 => Some(RteErrnoValue::ETOOMANYREFS),
            110 => Some(RteErrnoValue::ETIMEDOUT),
            111 => Some(RteErrnoValue::ECONNREFUSED),
            112 => Some(RteErrnoValue::EHOSTDOWN),
            113 => Some(RteErrnoValue::EHOSTUNREACH),
            114 => Some(RteErrnoValue::EALREADY),
            115 => Some(RteErrnoValue::EINPROGRESS),
            116 => Some(RteErrnoValue::ESTALE),
            117 => Some(RteErrnoValue::EUCLEAN),
            118 => Some(RteErrnoValue::ENOTNAM),
            119 => Some(RteErrnoValue::ENAVAIL),
            120 => Some(RteErrnoValue::EISNAM),
            121 => Some(RteErrnoValue::EREMOTEIO),
            122 => Some(RteErrnoValue::EDQUOT),
            123 => Some(RteErrnoValue::ENOMEDIUM),
            124 => Some(RteErrnoValue::EMEDIUMTYPE),
            125 => Some(RteErrnoValue::ECANCELED),
            126 => Some(RteErrnoValue::ENOKEY),
            127 => Some(RteErrnoValue::EKEYEXPIRED),
            128 => Some(RteErrnoValue::EKEYREVOKED),
            129 => Some(RteErrnoValue::EKEYREJECTED),
            130 => Some(RteErrnoValue::EOWNERDEAD),
            131 => Some(RteErrnoValue::ENOTRECOVERABLE),
            132 => Some(RteErrnoValue::ERFKILL),
            133 => Some(RteErrnoValue::EHWPOISON),
            1000 => Some(RteErrnoValue::RteMinErrno),
            1001 => Some(RteErrnoValue::ERteSecondary),
            1002 => Some(RteErrnoValue::ERteNoConfig),
            1003 => Some(RteErrnoValue::RteMaxErrno),
            _ => None,
        }
    }

    /// The error that the driver left last, given the number that it left.
    pub fn most_recent(errno: u32) -> (error: RteErrnoValue)
        requires
            exists|error: RteErrnoValue| error.spec_code() == errno,
        ensures
            error.spec_code() == errno,
    {
        RteErrnoValue::from_u32(errno).unwrap()
    }
}

} // verus!
