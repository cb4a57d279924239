//! Java Edition protocol versions, ordered by their protocol number.

use vstd::prelude::*;

verus! {

/// A Java Edition release whose protocol this plugin knows by name.
///
/// Releases that share a protocol number with an earlier one (1.19.2 with
/// 1.19.1, 1.20.1 with 1.20, ...) are named after the first of them.
#[allow(non_camel_case_types)]
#[derive(Clone, Copy, Debug, PartialEq, Eq, Structural, Hash)]
pub enum JavaMinecraftVersion {
    Unknown,
    V_1_7_2,
    V_1_7_6,
    V_1_8,
    V_1_9,
    V_1_9_1,
    V_1_9_2,
    V_1_9_3,
    V_1_10,
    V_1_11,
    V_1_11_1,
    V_1_12,
    V_1_12_1,
    V_1_12_2,
    V_1_13,
    V_1_13_1,
    V_1_13_2,
    V_1_14,
    V_1_14_1,
    V_1_14_2,
    V_1_14_3,
    V_1_14_4,
    V_1_15,
    V_1_15_1,
    V_1_15_2,
    V_1_16,
    V_1_16_1,
    V_1_16_2,
    V_1_16_3,
    V_1_16_4,
    V_1_17,
    V_1_17_1,
    V_1_18,
    V_1_18_2,
    V_1_19,
    V_1_19_1,
    V_1_19_3,
    V_1_19_4,
    V_1_20,
    V_1_20_2,
    V_1_20_3,
    V_1_20_5,
    V_1_21,
    V_1_21_2,
    V_1_21_4,
    V_1_21_5,
    V_1_21_6,
    V_1_21_7,
    V_1_21_9,
    V_1_21_11,
    V_26_1,
    V_26_2,
    V_26_3,
}

impl JavaMinecraftVersion {
    /// The protocol number the client sends in its handshake; `Unknown` is 0.
    pub open spec fn spec_protocol_version(self) -> u32 {
        match self {
            JavaMinecraftVersion::Unknown => 0,
            JavaMinecraftVersion::V_1_7_2 => 4,
            JavaMinecraftVersion::V_1_7_6 => 5,
            JavaMinecraftVersion::V_1_8 => 47,
            JavaMinecraftVersion::V_1_9 => 107,
            JavaMinecraftVersion::V_1_9_1 => 108,
            JavaMinecraftVersion::V_1_9_2 => 109,
            JavaMinecraftVersion::V_1_9_3 => 110,
            JavaMinecraftVersion::V_1_10 => 210,
            JavaMinecraftVersion::V_1_11 => 315,
            JavaMinecraftVersion::V_1_11_1 => 316,
            JavaMinecraftVersion::V_1_12 => 335,
            JavaMinecraftVersion::V_1_12_1 => 338,
            JavaMinecraftVersion::V_1_12_2 => 340,
            JavaMinecraftVersion::V_1_13 => 393,
            JavaMinecraftVersion::V_1_13_1 => 401,
            JavaMinecraftVersion::V_1_13_2 => 404,
            JavaMinecraftVersion::V_1_14 => 477,
            JavaMinecraftVersion::V_1_14_1 => 480,
            JavaMinecraftVersion::V_1_14_2 => 485,
            JavaMinecraftVersion::V_1_14_3 => 490,
            JavaMinecraftVersion::V_1_14_4 => 498,
            JavaMinecraftVersion::V_1_15 => 573,
            JavaMinecraftVersion::V_1_15_1 => 575,
            JavaMinecraftVersion::V_1_15_2 => 578,
            JavaMinecraftVersion::V_1_16 => 735,
            JavaMinecraftVersion::V_1_16_1 => 736,
            JavaMinecraftVersion::V_1_16_2 => 751,
            JavaMinecraftVersion::V_1_16_3 => 753,
            JavaMinecraftVersion::V_1_16_4 => 754,
            JavaMinecraftVersion::V_1_17 => 755,
            JavaMinecraftVersion::V_1_17_1 => 756,
            JavaMinecraftVersion::V_1_18 => 757,
            JavaMinecraftVersion::V_1_18_2 => 758,
            JavaMinecraftVersion::V_1_19 => 759,
            JavaMinecraftVersion::V_1_19_1 => 760,
            JavaMinecraftVersion::V_1_19_3 => 761,
            JavaMinecraftVersion::V_1_19_4 => 762,
            JavaMinecraftVersion::V_1_20 => 763,
            JavaMinecraftVersion::V_1_20_2 => 764,
            JavaMinecraftVersion::V_1_20_3 => 765,
            JavaMinecraftVersion::V_1_20_5 => 766,
            JavaMinecraftVersion::V_1_21 => 767,
            JavaMinecraftVersion::V_1_21_2 => 768,
            JavaMinecraftVersion::V_1_21_4 => 769,
            JavaMinecraftVersion::V_1_21_5 => 770,
            JavaMinecraftVersion::V_1_21_6 => 771,
            JavaMinecraftVersion::V_1_21_7 => 772,
            JavaMinecraftVersion::V_1_21_9 => 773,
            JavaMinecraftVersion::V_1_21_11 => 774,
            JavaMinecraftVersion::V_26_1 => 775,
            JavaMinecraftVersion::V_26_2 => 776,
            JavaMinecraftVersion::V_26_3 => 777,
        }
    }

    /// The protocol number of this release.
    #[verifier::when_used_as_spec(spec_protocol_version)]
    pub fn protocol_version(self) -> (r: u32)
        ensures
            r == self.spec_protocol_version(),
    {
        match self {
            JavaMinecraftVersion::Unknown => 0,
            JavaMinecraftVersion::V_1_7_2 => 4,
            JavaMinecraftVersion::V_1_7_6 => 5,
            JavaMinecraftVersion::V_1_8 => 47,
            JavaMinecraftVersion::V_1_9 => 107,
            JavaMinecraftVersion::V_1_9_1 => 108,
            JavaMinecraftVersion::V_1_9_2 => 109,
            JavaMinecraftVersion::V_1_9_3 => 110,
            JavaMinecraftVersion::V_1_10 => 210,
            JavaMinecraftVersion::V_1_11 => 315,
            JavaMinecraftVersion::V_1_11_1 => 316,
            JavaMinecraftVersion::V_1_12 => 335,
            JavaMinecraftVersion::V_1_12_1 => 338,
            JavaMinecraftVersion::V_1_12_2 => 340,
            JavaMinecraftVersion::V_1_13 => 393,
            JavaMinecraftVersion::V_1_13_1 => 401,
            JavaMinecraftVersion::V_1_13_2 => 404,
            JavaMinecraftVersion::V_1_14 => 477,
            JavaMinecraftVersion::V_1_14_1 => 480,
            JavaMinecraftVersion::V_1_14_2 => 485,
            JavaMinecraftVersion::V_1_14_3 => 490,
            JavaMinecraftVersion::V_1_14_4 => 498,
            JavaMinecraftVersion::V_1_15 => 573,
            JavaMinecraftVersion::V_1_15_1 => 575,
            JavaMinecraftVersion::V_1_15_2 => 578,
            JavaMinecraftVersion::V_1_16 => 735,
            JavaMinecraftVersion::V_1_16_1 => 736,
            JavaMinecraftVersion::V_1_16_2 => 751,
            JavaMinecraftVersion::V_1_16_3 => 753,
            JavaMinecraftVersion::V_1_16_4 => 754,
            JavaMinecraftVersion::V_1_17 => 755,
            JavaMinecraftVersion::V_1_17_1 => 756,
            JavaMinecraftVersion::V_1_18 => 757,
            JavaMinecraftVersion::V_1_18_2 => 758,
            JavaMinecraftVersion::V_1_19 => 759,
            JavaMinecraftVersion::V_1_19_1 => 760,
            JavaMinecraftVersion::V_1_19_3 => 761,
            JavaMinecraftVersion::V_1_19_4 => 762,
            JavaMinecraftVersion::V_1_20 => 763,
            JavaMinecraftVersion::V_1_20_2 => 764,
            JavaMinecraftVersion::V_1_20_3 => 765,
            JavaMinecraftVersion::V_1_20_5 => 766,
            JavaMinecraftVersion::V_1_21 => 767,
            JavaMinecraftVersion::V_1_21_2 => 768,
            JavaMinecraftVersion::V_1_21_4 => 769,
            JavaMinecraftVersion::V_1_21_5 => 770,
            JavaMinecraftVersion::V_1_21_6 => 771,
            JavaMinecraftVersion::V_1_21_7 => 772,
            JavaMinecraftVersion::V_1_21_9 => 773,
            JavaMinecraftVersion::V_1_21_11 => 774,
            JavaMinecraftVersion::V_26_1 => 775,
            JavaMinecraftVersion::V_26_2 => 776,
            JavaMinecraftVersion::V_26_3 => 777,
        }
    }

    /// The release a handshake protocol number names, `Unknown` for any
    /// number no release listed here uses.
    pub open spec fn spec_from_protocol(protocol: u32) -> JavaMinecraftVersion {
        if protocol == 4 { JavaMinecraftVersion::V_1_7_2 }
        else if protocol == 5 { JavaMinecraftVersion::V_1_7_6 }
        else if protocol == 47 { JavaMinecraftVersion::V_1_8 }
        else if protocol == 107 { JavaMinecraftVersion::V_1_9 }
        else if protocol == 108 { JavaMinecraftVersion::V_1_9_1 }
        else if protocol == 109 { JavaMinecraftVersion::V_1_9_2 }
        else if protocol == 110 { JavaMinecraftVersion::V_1_9_3 }
        else if protocol == 210 { JavaMinecraftVersion::V_1_10 }
        else if protocol == 315 { JavaMinecraftVersion::V_1_11 }
        else if protocol == 316 { JavaMinecraftVersion::V_1_11_1 }
        else if protocol == 335 { JavaMinecraftVersion::V_1_12 }
        else if protocol == 338 { JavaMinecraftVersion::V_1_12_1 }
        else if protocol == 340 { JavaMinecraftVersion::V_1_12_2 }
        else if protocol == 393 { JavaMinecraftVersion::V_1_13 }
        else if protocol == 401 { JavaMinecraftVersion::V_1_13_1 }
        else if protocol == 404 { JavaMinecraftVersion::V_1_13_2 }
        else if protocol == 477 { JavaMinecraftVersion::V_1_14 }
        else if protocol == 480 { JavaMinecraftVersion::V_1_14_1 }
        else if protocol == 485 { JavaMinecraftVersion::V_1_14_2 }
        else if protocol == 490 { JavaMinecraftVersion::V_1_14_3 }
        else if protocol == 498 { JavaMinecraftVersion::V_1_14_4 }
        else if protocol == 573 { JavaMinecraftVersion::V_1_15 }
        else if protocol == 575 { JavaMinecraftVersion::V_1_15_1 }
        else if protocol == 578 { JavaMinecraftVersion::V_1_15_2 }
        else if protocol == 735 { JavaMinecraftVersion::V_1_16 }
        else if protocol == 736 { JavaMinecraftVersion::V_1_16_1 }
        else if protocol == 751 { JavaMinecraftVersion::V_1_16_2 }
        else if protocol == 753 { JavaMinecraftVersion::V_1_16_3 }
        else if protocol == 754 { JavaMinecraftVersion::V_1_16_4 }
        else if 755 <= protocol <= 777 { Self::spec_from_recent(protocol) }
        else { JavaMinecraftVersion::Unknown }
    }

    /// The releases from 1.17 on, whose protocol numbers are consecutive.
    pub open spec fn spec_from_recent(protocol: u32) -> JavaMinecraftVersion {
        if protocol == 755 { JavaMinecraftVersion::V_1_17 }
        else if protocol == 756 { JavaMinecraftVersion::V_1_17_1 }
        else if protocol == 757 { JavaMinecraftVersion::V_1_18 }
        else if protocol == 758 { JavaMinecraftVersion::V_1_18_2 }
        else if protocol == 759 { JavaMinecraftVersion::V_1_19 }
        else if protocol == 760 { JavaMinecraftVersion::V_1_19_1 }
        else if protocol == 761 { JavaMinecraftVersion::V_1_19_3 }
        else if protocol == 762 { JavaMinecraftVersion::V_1_19_4 }
        else if protocol == 763 { JavaMinecraftVersion::V_1_20 }
        else if protocol == 764 { JavaMinecraftVersion::V_1_20_2 }
        else if protocol == 765 { JavaMinecraftVersion::V_1_20_3 }
        else if protocol == 766 { JavaMinecraftVersion::V_1_20_5 }
        else if protocol == 767 { JavaMinecraftVersion::V_1_21 }
        else if protocol == 768 { JavaMinecraftVersion::V_1_21_2 }
        else if protocol == 769 { JavaMinecraftVersion::V_1_21_4 }
        else if protocol == 770 { JavaMinecraftVersion::V_1_21_5 }
        else if protocol == 771 { JavaMinecraftVersion::V_1_21_6 }
        else if protocol == 772 { JavaMinecraftVersion::V_1_21_7 }
        else if protocol == 773 { JavaMinecraftVersion::V_1_21_9 }
        else if protocol == 774 { JavaMinecraftVersion::V_1_21_11 }
        else if protocol == 775 { JavaMinecraftVersion::V_26_1 }
        else if protocol == 776 { JavaMinecraftVersion::V_26_2 }
        else { JavaMinecraftVersion::V_26_3 }
    }

    /// The release a handshake protocol number names.
    pub fn from_protocol(protocol: u32) -> (r: JavaMinecraftVersion)
        ensures
            r == Self::spec_from_protocol(protocol),
    {
        if protocol == 4 { JavaMinecraftVersion::V_1_7_2 }
        else if protocol == 5 { JavaMinecraftVersion::V_1_7_6 }
        else if protocol == 47 { JavaMinecraftVersion::V_1_8 }
        else if protocol == 107 { JavaMinecraftVersion::V_1_9 }
        else if protocol == 108 { JavaMinecraftVersion::V_1_9_1 }
        else if protocol == 109 { JavaMinecraftVersion::V_1_9_2 }
        else if protocol == 110 { JavaMinecraftVersion::V_1_9_3 }
        else if protocol == 210 { JavaMinecraftVersion::V_1_10 }
        else if protocol == 315 { JavaMinecraftVersion::V_1_11 }
        else if protocol == 316 { JavaMinecraftVersion::V_1_11_1 }
        else if protocol == 335 { JavaMinecraftVersion::V_1_12 }
        else if protocol == 338 { JavaMinecraftVersion::V_1_12_1 }
        else if protocol == 340 { JavaMinecraftVersion::V_1_12_2 }
        else if protocol == 393 { JavaMinecraftVersion::V_1_13 }
        else if protocol == 401 { JavaMinecraftVersion::V_1_13_1 }
        else if protocol == 404 { JavaMinecraftVersion::V_1_13_2 }
        else if protocol == 477 { JavaMinecraftVersion::V_1_14 }
        else if protocol == 480 { JavaMinecraftVersion::V_1_14_1 }
        else if protocol == 485 { JavaMinecraftVersion::V_1_14_2 }
        else if protocol == 490 { JavaMinecraftVersion::V_1_14_3 }
        else if protocol == 498 { JavaMinecraftVersion::V_1_14_4 }
        else if protocol == 573 { JavaMinecraftVersion::V_1_15 }
        else if protocol == 575 { JavaMinecraftVersion::V_1_15_1 }
        else if protocol == 578 { JavaMinecraftVersion::V_1_15_2 }
        else if protocol == 735 { JavaMinecraftVersion::V_1_16 }
        else if protocol == 736 { JavaMinecraftVersion::V_1_16_1 }
        else if protocol == 751 { JavaMinecraftVersion::V_1_16_2 }
        else if protocol == 753 { JavaMinecraftVersion::V_1_16_3 }
        else if protocol == 754 { JavaMinecraftVersion::V_1_16_4 }
        else if 755 <= protocol && protocol <= 777 { Self::from_recent(protocol) }
        else { JavaMinecraftVersion::Unknown }
    }

    fn from_recent(protocol: u32) -> (r: JavaMinecraftVersion)
        ensures
            r == Self::spec_from_recent(protocol),
    {
        if protocol == 755 { JavaMinecraftVersion::V_1_17 }
        else if protocol == 756 { JavaMinecraftVersion::V_1_17_1 }
        else if protocol == 757 { JavaMinecraftVersion::V_1_18 }
        else if protocol == 758 { JavaMinecraftVersion::V_1_18_2 }
        else if protocol == 759 { JavaMinecraftVersion::V_1_19 }
        else if protocol == 760 { JavaMinecraftVersion::V_1_19_1 }
        else if protocol == 761 { JavaMinecraftVersion::V_1_19_3 }
        else if protocol == 762 { JavaMinecraftVersion::V_1_19_4 }
        else if protocol == 763 { JavaMinecraftVersion::V_1_20 }
        else if protocol == 764 { JavaMinecraftVersion::V_1_20_2 }
        else if protocol == 765 { JavaMinecraftVersion::V_1_20_3 }
        else if protocol == 766 { JavaMinecraftVersion::V_1_20_5 }
        else if protocol == 767 { JavaMinecraftVersion::V_1_21 }
        else if protocol == 768 { JavaMinecraftVersion::V_1_21_2 }
        else if protocol == 769 { JavaMinecraftVersion::V_1_21_4 }
        else if protocol == 770 { JavaMinecraftVersion::V_1_21_5 }
        else if protocol == 771 { JavaMinecraftVersion::V_1_21_6 }
        else if protocol == 772 { JavaMinecraftVersion::V_1_21_7 }
        else if protocol == 773 { JavaMinecraftVersion::V_1_21_9 }
        else if protocol == 774 { JavaMinecraftVersion::V_1_21_11 }
        else if protocol == 775 { JavaMinecraftVersion::V_26_1 }
        else if protocol == 776 { JavaMinecraftVersion::V_26_2 }
        else { JavaMinecraftVersion::V_26_3 }
    }

    /// The release's name as players know it, such as `1.16.2`; `unknown` for
    /// a protocol number no release listed here uses.
    pub open spec fn spec_name(self) -> Seq<char> {
        match self {
            JavaMinecraftVersion::Unknown => "unknown"@,
            JavaMinecraftVersion::V_1_7_2 => "1.7.2"@,
            JavaMinecraftVersion::V_1_7_6 => "1.7.6"@,
            JavaMinecraftVersion::V_1_8 => "1.8"@,
            JavaMinecraftVersion::V_1_9 => "1.9"@,
            JavaMinecraftVersion::V_1_9_1 => "1.9.1"@,
            JavaMinecraftVersion::V_1_9_2 => "1.9.2"@,
            JavaMinecraftVersion::V_1_9_3 => "1.9.3"@,
            JavaMinecraftVersion::V_1_10 => "1.10"@,
            JavaMinecraftVersion::V_1_11 => "1.11"@,
            JavaMinecraftVersion::V_1_11_1 => "1.11.1"@,
            JavaMinecraftVersion::V_1_12 => "1.12"@,
            JavaMinecraftVersion::V_1_12_1 => "1.12.1"@,
            JavaMinecraftVersion::V_1_12_2 => "1.12.2"@,
            JavaMinecraftVersion::V_1_13 => "1.13"@,
            JavaMinecraftVersion::V_1_13_1 => "1.13.1"@,
            JavaMinecraftVersion::V_1_13_2 => "1.13.2"@,
            JavaMinecraftVersion::V_1_14 => "1.14"@,
            JavaMinecraftVersion::V_1_14_1 => "1.14.1"@,
            JavaMinecraftVersion::V_1_14_2 => "1.14.2"@,
            JavaMinecraftVersion::V_1_14_3 => "1.14.3"@,
            JavaMinecraftVersion::V_1_14_4 => "1.14.4"@,
            JavaMinecraftVersion::V_1_15 => "1.15"@,
            JavaMinecraftVersion::V_1_15_1 => "1.15.1"@,
            JavaMinecraftVersion::V_1_15_2 => "1.15.2"@,
            JavaMinecraftVersion::V_1_16 => "1.16"@,
            JavaMinecraftVersion::V_1_16_1 => "1.16.1"@,
            JavaMinecraftVersion::V_1_16_2 => "1.16.2"@,
            JavaMinecraftVersion::V_1_16_3 => "1.16.3"@,
            JavaMinecraftVersion::V_1_16_4 => "1.16.4"@,
            JavaMinecraftVersion::V_1_17 => "1.17"@,
            JavaMinecraftVersion::V_1_17_1 => "1.17.1"@,
            JavaMinecraftVersion::V_1_18 => "1.18"@,
            JavaMinecraftVersion::V_1_18_2 => "1.18.2"@,
            JavaMinecraftVersion::V_1_19 => "1.19"@,
            JavaMinecraftVersion::V_1_19_1 => "1.19.1"@,
            JavaMinecraftVersion::V_1_19_3 => "1.19.3"@,
            JavaMinecraftVersion::V_1_19_4 => "1.19.4"@,
            JavaMinecraftVersion::V_1_20 => "1.20"@,
            JavaMinecraftVersion::V_1_20_2 => "1.20.2"@,
            JavaMinecraftVersion::V_1_20_3 => "1.20.3"@,
            JavaMinecraftVersion::V_1_20_5 => "1.20.5"@,
            JavaMinecraftVersion::V_1_21 => "1.21"@,
            JavaMinecraftVersion::V_1_21_2 => "1.21.2"@,
            JavaMinecraftVersion::V_1_21_4 => "1.21.4"@,
            JavaMinecraftVersion::V_1_21_5 => "1.21.5"@,
            JavaMinecraftVersion::V_1_21_6 => "1.21.6"@,
            JavaMinecraftVersion::V_1_21_7 => "1.21.7"@,
            JavaMinecraftVersion::V_1_21_9 => "1.21.9"@,
            JavaMinecraftVersion::V_1_21_11 => "1.21.11"@,
            JavaMinecraftVersion::V_26_1 => "26.1"@,
            JavaMinecraftVersion::V_26_2 => "26.2"@,
            JavaMinecraftVersion::V_26_3 => "26.3"@,
        }
    }

    /// The release's name as players know it.
    pub fn name(self) -> (r: &'static str)
        ensures
            r@ == self.spec_name(),
    {
        match self {
            JavaMinecraftVersion::Unknown => "unknown",
            JavaMinecraftVersion::V_1_7_2 => "1.7.2",
            JavaMinecraftVersion::V_1_7_6 => "1.7.6",
            JavaMinecraftVersion::V_1_8 => "1.8",
            JavaMinecraftVersion::V_1_9 => "1.9",
            JavaMinecraftVersion::V_1_9_1 => "1.9.1",
            JavaMinecraftVersion::V_1_9_2 => "1.9.2",
            JavaMinecraftVersion::V_1_9_3 => "1.9.3",
            JavaMinecraftVersion::V_1_10 => "1.10",
            JavaMinecraftVersion::V_1_11 => "1.11",
            JavaMinecraftVersion::V_1_11_1 => "1.11.1",
            JavaMinecraftVersion::V_1_12 => "1.12",
            JavaMinecraftVersion::V_1_12_1 => "1.12.1",
            JavaMinecraftVersion::V_1_12_2 => "1.12.2",
            JavaMinecraftVersion::V_1_13 => "1.13",
            JavaMinecraftVersion::V_1_13_1 => "1.13.1",
            JavaMinecraftVersion::V_1_13_2 => "1.13.2",
            JavaMinecraftVersion::V_1_14 => "1.14",
            JavaMinecraftVersion::V_1_14_1 => "1.14.1",
            JavaMinecraftVersion::V_1_14_2 => "1.14.2",
            JavaMinecraftVersion::V_1_14_3 => "1.14.3",
            JavaMinecraftVersion::V_1_14_4 => "1.14.4",
            JavaMinecraftVersion::V_1_15 => "1.15",
            JavaMinecraftVersion::V_1_15_1 => "1.15.1",
            JavaMinecraftVersion::V_1_15_2 => "1.15.2",
            JavaMinecraftVersion::V_1_16 => "1.16",
            JavaMinecraftVersion::V_1_16_1 => "1.16.1",
            JavaMinecraftVersion::V_1_16_2 => "1.16.2",
            JavaMinecraftVersion::V_1_16_3 => "1.16.3",
            JavaMinecraftVersion::V_1_16_4 => "1.16.4",
            JavaMinecraftVersion::V_1_17 => "1.17",
            JavaMinecraftVersion::V_1_17_1 => "1.17.1",
            JavaMinecraftVersion::V_1_18 => "1.18",
            JavaMinecraftVersion::V_1_18_2 => "1.18.2",
            JavaMinecraftVersion::V_1_19 => "1.19",
            JavaMinecraftVersion::V_1_19_1 => "1.19.1",
            JavaMinecraftVersion::V_1_19_3 => "1.19.3",
            JavaMinecraftVersion::V_1_19_4 => "1.19.4",
            JavaMinecraftVersion::V_1_20 => "1.20",
            JavaMinecraftVersion::V_1_20_2 => "1.20.2",
            JavaMinecraftVersion::V_1_20_3 => "1.20.3",
            JavaMinecraftVersion::V_1_20_5 => "1.20.5",
            JavaMinecraftVersion::V_1_21 => "1.21",
            JavaMinecraftVersion::V_1_21_2 => "1.21.2",
            JavaMinecraftVersion::V_1_21_4 => "1.21.4",
            JavaMinecraftVersion::V_1_21_5 => "1.21.5",
            JavaMinecraftVersion::V_1_21_6 => "1.21.6",
            JavaMinecraftVersion::V_1_21_7 => "1.21.7",
            JavaMinecraftVersion::V_1_21_9 => "1.21.9",
            JavaMinecraftVersion::V_1_21_11 => "1.21.11",
            JavaMinecraftVersion::V_26_1 => "26.1",
            JavaMinecraftVersion::V_26_2 => "26.2",
            JavaMinecraftVersion::V_26_3 => "26.3",
        }
    }

    /// `self` is `other` or a later release.
    pub open spec fn spec_at_least(self, other: JavaMinecraftVersion) -> bool {
        self.spec_protocol_version() >= other.spec_protocol_version()
    }

    /// Whether `self` is `other` or a later release.
    #[verifier::when_used_as_spec(spec_at_least)]
    pub fn at_least(self, other: JavaMinecraftVersion) -> (r: bool)
        ensures
            r == self.spec_at_least(other),
    {
        self.protocol_version() >= other.protocol_version()
    }

    /// `self` is `other` or an earlier release.
    pub open spec fn spec_at_most(self, other: JavaMinecraftVersion) -> bool {
        self.spec_protocol_version() <= other.spec_protocol_version()
    }

    /// Whether `self` is `other` or an earlier release.
    #[verifier::when_used_as_spec(spec_at_most)]
    pub fn at_most(self, other: JavaMinecraftVersion) -> (r: bool)
        ensures
            r == self.spec_at_most(other),
    {
        self.protocol_version() <= other.protocol_version()
    }

    /// `self` is a strictly earlier release than `other`.
    pub open spec fn spec_older_than(self, other: JavaMinecraftVersion) -> bool {
        self.spec_protocol_version() < other.spec_protocol_version()
    }

    /// Whether `self` is a strictly earlier release than `other`.
    #[verifier::when_used_as_spec(spec_older_than)]
    pub fn older_than(self, other: JavaMinecraftVersion) -> (r: bool)
        ensures
            r == self.spec_older_than(other),
    {
        self.protocol_version() < other.protocol_version()
    }

    /// The later of two releases.
    pub fn max(self, other: JavaMinecraftVersion) -> (r: JavaMinecraftVersion)
        ensures
            r == (if self.spec_at_least(other) { self } else { other }),
    {
        if self.at_least(other) { self } else { other }
    }
}

/// Every named release reads back from its own protocol number.
pub proof fn lemma_protocol_round_trip(version: JavaMinecraftVersion)
    requires
        version != JavaMinecraftVersion::Unknown,
    ensures
        JavaMinecraftVersion::spec_from_protocol(version.spec_protocol_version()) == version,
{
}

/// Distinct named releases have distinct protocol numbers, so the order by
/// protocol number is a total order on them.
pub proof fn lemma_protocol_injective(a: JavaMinecraftVersion, b: JavaMinecraftVersion)
    requires
        a.spec_protocol_version() == b.spec_protocol_version(),
    ensures
        a == b,
{
}

} // verus!
