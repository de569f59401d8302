//! The engine's table-driven pseudo-random number generator.
//!
//! Both generators walk the same 256-entry table; the play generator drives
//! everything that must stay in step for demos and network games.

use vstd::prelude::*;

verus! {

/// Entry `i` of the random table.
pub open spec fn rnd_entry(i: u8) -> u8 {
    match i {
        0 => 0,
        1 => 8,
        2 => 109,
        3 => 220,
        4 => 222,
        5 => 241,
        6 => 149,
        7 => 107,
        8 => 75,
        9 => 248,
        10 => 254,
        11 => 140,
        12 => 16,
        13 => 66,
        14 => 74,
        15 => 21,
        16 => 211,
        17 => 47,
        18 => 80,
        19 => 242,
        20 => 154,
        21 => 27,
        22 => 205,
        23 => 128,
        24 => 161,
        25 => 89,
        26 => 77,
        27 => 36,
        28 => 95,
        29 => 110,
        30 => 85,
        31 => 48,
        32 => 212,
        33 => 140,
        34 => 211,
        35 => 249,
        36 => 22,
        37 => 79,
        38 => 200,
        39 => 50,
        40 => 28,
        41 => 188,
        42 => 52,
        43 => 140,
        44 => 202,
        45 => 120,
        46 => 68,
        47 => 145,
        48 => 62,
        49 => 70,
        50 => 184,
        51 => 190,
        52 => 91,
        53 => 197,
        54 => 152,
        55 => 224,
        56 => 149,
        57 => 104,
        58 => 25,
        59 => 178,
        60 => 252,
        61 => 182,
        62 => 202,
        63 => 182,
        64 => 141,
        65 => 197,
        66 => 4,
        67 => 81,
        68 => 181,
        69 => 242,
        70 => 145,
        71 => 42,
        72 => 39,
        73 => 227,
        74 => 156,
        75 => 198,
        76 => 225,
        77 => 193,
        78 => 219,
        79 => 93,
        80 => 122,
        81 => 175,
        82 => 249,
        83 => 0,
        84 => 175,
        85 => 143,
        86 => 70,
        87 => 239,
        88 => 46,
        89 => 246,
        90 => 163,
        91 => 53,
        92 => 163,
        93 => 109,
        94 => 168,
        95 => 135,
        96 => 2,
        97 => 235,
        98 => 25,
        99 => 92,
        100 => 20,
        101 => 145,
        102 => 138,
        103 => 77,
        104 => 69,
        105 => 166,
        106 => 78,
        107 => 176,
        108 => 173,
        109 => 212,
        110 => 166,
        111 => 113,
        112 => 94,
        113 => 161,
        114 => 41,
        115 => 50,
        116 => 239,
        117 => 49,
        118 => 111,
        119 => 164,
        120 => 70,
        121 => 60,
        122 => 2,
        123 => 37,
        124 => 171,
        125 => 75,
        126 => 136,
        127 => 156,
        128 => 11,
        129 => 56,
        130 => 42,
        131 => 146,
        132 => 138,
        133 => 229,
        134 => 73,
        135 => 146,
        136 => 77,
        137 => 61,
        138 => 98,
        139 => 196,
        140 => 135,
        141 => 106,
        142 => 63,
        143 => 197,
        144 => 195,
        145 => 86,
        146 => 96,
        147 => 203,
        148 => 113,
        149 => 101,
        150 => 170,
        151 => 247,
        152 => 181,
        153 => 113,
        154 => 80,
        155 => 250,
        156 => 108,
        157 => 7,
        158 => 255,
        159 => 237,
        160 => 129,
        161 => 226,
        162 => 79,
        163 => 107,
        164 => 112,
        165 => 166,
        166 => 103,
        167 => 241,
        168 => 24,
        169 => 223,
        170 => 239,
        171 => 120,
        172 => 198,
        173 => 58,
        174 => 60,
        175 => 82,
        176 => 128,
        177 => 3,
        178 => 184,
        179 => 66,
        180 => 143,
        181 => 224,
        182 => 145,
        183 => 224,
        184 => 81,
        185 => 206,
        186 => 163,
        187 => 45,
        188 => 63,
        189 => 90,
        190 => 168,
        191 => 114,
        192 => 59,
        193 => 33,
        194 => 159,
        195 => 95,
        196 => 28,
        197 => 139,
        198 => 123,
        199 => 98,
        200 => 125,
        201 => 196,
        202 => 15,
        203 => 70,
        204 => 194,
        205 => 253,
        206 => 54,
        207 => 14,
        208 => 109,
        209 => 226,
        210 => 71,
        211 => 17,
        212 => 161,
        213 => 93,
        214 => 186,
        215 => 87,
        216 => 244,
        217 => 138,
        218 => 20,
        219 => 52,
        220 => 123,
        221 => 251,
        222 => 26,
        223 => 36,
        224 => 17,
        225 => 46,
        226 => 52,
        227 => 231,
        228 => 232,
        229 => 76,
        230 => 31,
        231 => 221,
        232 => 84,
        233 => 37,
        234 => 216,
        235 => 165,
        236 => 212,
        237 => 106,
        238 => 197,
        239 => 242,
        240 => 98,
        241 => 43,
        242 => 39,
        243 => 175,
        244 => 254,
        245 => 145,
        246 => 190,
        247 => 84,
        248 => 118,
        249 => 222,
        250 => 187,
        251 => 136,
        252 => 120,
        253 => 163,
        254 => 236,
        _ => 249,
    }
}

fn table_entry(i: u8) -> (r: u8)
    ensures
        r == rnd_entry(i),
{
    match i {
        0 => 0,
        1 => 8,
        2 => 109,
        3 => 220,
        4 => 222,
        5 => 241,
        6 => 149,
        7 => 107,
        8 => 75,
        9 => 248,
        10 => 254,
        11 => 140,
        12 => 16,
        13 => 66,
        14 => 74,
        15 => 21,
        16 => 211,
        17 => 47,
        18 => 80,
        19 => 242,
        20 => 154,
        21 => 27,
        22 => 205,
        23 => 128,
        24 => 161,
        25 => 89,
        26 => 77,
        27 => 36,
        28 => 95,
        29 => 110,
        30 => 85,
        31 => 48,
        32 => 212,
        33 => 140,
        34 => 211,
        35 => 249,
        36 => 22,
        37 => 79,
        38 => 200,
        39 => 50,
        40 => 28,
        41 => 188,
        42 => 52,
        43 => 140,
        44 => 202,
        45 => 120,
        46 => 68,
        47 => 145,
        48 => 62,
        49 => 70,
        50 => 184,
        51 => 190,
        52 => 91,
        53 => 197,
        54 => 152,
        55 => 224,
        56 => 149,
        57 => 104,
        58 => 25,
        59 => 178,
        60 => 252,
        61 => 182,
        62 => 202,
        63 => 182,
        64 => 141,
        65 => 197,
        66 => 4,
        67 => 81,
        68 => 181,
        69 => 242,
        70 => 145,
        71 => 42,
        72 => 39,
        73 => 227,
        74 => 156,
        75 => 198,
        76 => 225,
        77 => 193,
        78 => 219,
        79 => 93,
        80 => 122,
        81 => 175,
        82 => 249,
        83 => 0,
        84 => 175,
        85 => 143,
        86 => 70,
        87 => 239,
        88 => 46,
        89 => 246,
        90 => 163,
        91 => 53,
        92 => 163,
        93 => 109,
        94 => 168,
        95 => 135,
        96 => 2,
        97 => 235,
        98 => 25,
        99 => 92,
        100 => 20,
        101 => 145,
        102 => 138,
        103 => 77,
        104 => 69,
        105 => 166,
        106 => 78,
        107 => 176,
        108 => 173,
        109 => 212,
        110 => 166,
        111 => 113,
        112 => 94,
        113 => 161,
        114 => 41,
        115 => 50,
        116 => 239,
        117 => 49,
        118 => 111,
        119 => 164,
        120 => 70,
        121 => 60,
        122 => 2,
        123 => 37,
        124 => 171,
        125 => 75,
        126 => 136,
        127 => 156,
        128 => 11,
        129 => 56,
        130 => 42,
        131 => 146,
        132 => 138,
        133 => 229,
        134 => 73,
        135 => 146,
        136 => 77,
        137 => 61,
        138 => 98,
        139 => 196,
        140 => 135,
        141 => 106,
        142 => 63,
        143 => 197,
        144 => 195,
        145 => 86,
        146 => 96,
        147 => 203,
        148 => 113,
        149 => 101,
        150 => 170,
        151 => 247,
        152 => 181,
        153 => 113,
        154 => 80,
        155 => 250,
        156 => 108,
        157 => 7,
        158 => 255,
        159 => 237,
        160 => 129,
        161 => 226,
        162 => 79,
        163 => 107,
        164 => 112,
        165 => 166,
        166 => 103,
        167 => 241,
        168 => 24,
        169 => 223,
        170 => 239,
        171 => 120,
        172 => 198,
        173 => 58,
        174 => 60,
        175 => 82,
        176 => 128,
        177 => 3,
        178 => 184,
        179 => 66,
        180 => 143,
        181 => 224,
        182 => 145,
        183 => 224,
        184 => 81,
        185 => 206,
        186 => 163,
        187 => 45,
        188 => 63,
        189 => 90,
        190 => 168,
        191 => 114,
        192 => 59,
        193 => 33,
        194 => 159,
        195 => 95,
        196 => 28,
        197 => 139,
        198 => 123,
        199 => 98,
        200 => 125,
        201 => 196,
        202 => 15,
        203 => 70,
        204 => 194,
        205 => 253,
        206 => 54,
        207 => 14,
        208 => 109,
        209 => 226,
        210 => 71,
        211 => 17,
        212 => 161,
        213 => 93,
        214 => 186,
        215 => 87,
        216 => 244,
        217 => 138,
        218 => 20,
        219 => 52,
        220 => 123,
        221 => 251,
        222 => 26,
        223 => 36,
        224 => 17,
        225 => 46,
        226 => 52,
        227 => 231,
        228 => 232,
        229 => 76,
        230 => 31,
        231 => 221,
        232 => 84,
        233 => 37,
        234 => 216,
        235 => 165,
        236 => 212,
        237 => 106,
        238 => 197,
        239 => 242,
        240 => 98,
        241 => 43,
        242 => 39,
        243 => 175,
        244 => 254,
        245 => 145,
        246 => 190,
        247 => 84,
        248 => 118,
        249 => 222,
        250 => 187,
        251 => 136,
        252 => 120,
        253 => 163,
        254 => 236,
        _ => 249,
    }
}

/// The random number generator state: one table index per stream.
#[derive(Clone, Copy, Debug)]
pub struct DoomRandom {
    /// Index of the menu/renderer stream (`M_Random`).
    pub rndindex: u8,
    /// Index of the play stream (`P_Random`).
    pub prndindex: u8,
}

/// The play-stream index after one more draw.
pub open spec fn next_index(i: u8) -> u8 {
    if i == 255 {
        0
    } else {
        (i + 1) as u8
    }
}

impl DoomRandom {
    /// Both streams at the start of the table.
    pub fn new() -> (r: DoomRandom)
        ensures
            r.rndindex == 0,
            r.prndindex == 0,
    {
        DoomRandom { rndindex: 0, prndindex: 0 }
    }

    /// The value the next `p_random` call returns.
    pub open spec fn next_p(self) -> u8 {
        rnd_entry(next_index(self.prndindex))
    }

    /// The generator after one `p_random` call.
    pub open spec fn advanced(self) -> DoomRandom {
        DoomRandom { prndindex: next_index(self.prndindex), ..self }
    }

    /// `P_Random`: advance the play stream and return its table entry.
    pub fn p_random(&mut self) -> (r: u8)
        ensures
            r == old(self).next_p(),
            *final(self) == old(self).advanced(),
    {
        self.prndindex = if self.prndindex == 255 { 0 } else { self.prndindex + 1 };
        table_entry(self.prndindex)
    }

    /// `M_Random`: advance the menu stream and return its table entry.
    pub fn m_random(&mut self) -> (r: u8)
        ensures
            r == rnd_entry(next_index(old(self).rndindex)),
            final(self).rndindex == next_index(old(self).rndindex),
            final(self).prndindex == old(self).prndindex,
    {
        self.rndindex = if self.rndindex == 255 { 0 } else { self.rndindex + 1 };
        table_entry(self.rndindex)
    }

    /// `M_ClearRandom`: restart both streams.
    pub fn clear(&mut self)
        ensures
            final(self).rndindex == 0,
            final(self).prndindex == 0,
    {
        self.rndindex = 0;
        self.prndindex = 0;
    }
}

/// The generator after `n` calls of `p_random`.
pub open spec fn advanced_by(r: DoomRandom, n: nat) -> DoomRandom
    decreases n,
{
    if n == 0 {
        r
    } else {
        advanced_by(r.advanced(), (n - 1) as nat)
    }
}

/// After `n` draws the play-stream index has moved `n` places round the table.
proof fn lemma_advanced_by(r: DoomRandom, n: nat)
    ensures
        advanced_by(r, n).prndindex == (r.prndindex + n) % 256,
        advanced_by(r, n).rndindex == r.rndindex,
    decreases n,
{
    if n > 0 {
        lemma_advanced_by(r.advanced(), (n - 1) as nat);
        assert(r.advanced().prndindex == (r.prndindex + 1) % 256);
        assert(((r.prndindex + 1) % 256 + (n - 1)) % 256 == (r.prndindex + n) % 256) by {
            vstd::arithmetic::div_mod::lemma_add_mod_noop(r.prndindex + 1, (n - 1) as int, 256);
            vstd::arithmetic::div_mod::lemma_add_mod_noop(r.prndindex + 1, (n - 1) as int, 256);
        }
    }
}

/// Law: the play stream repeats every 256 draws: after 256 calls of
/// `p_random` the generator is back where it started (and so gives the
/// same numbers again).
pub proof fn law_play_stream_period(r: DoomRandom)
    ensures
        advanced_by(r, 256) == r,
{
    lemma_advanced_by(r, 256);
    assert((r.prndindex + 256) % 256 == r.prndindex) by {
        vstd::arithmetic::div_mod::lemma_mod_add_multiples_vanish(r.prndindex as int, 256);
    }
}

} // verus!
