//! QPP interleaver parameters for the turbo code block lengths.

use vstd::prelude::*;

verus! {

/// Quadratic permutation polynomial interleaver of length `length`:
/// index `i` maps to `(f1 * i + f2 * i * i) mod length`.
#[derive(PartialEq, Eq, Structural, Clone, Copy, Debug)]
pub struct QppInterleaver {
    pub length: usize,
    pub f1: usize,
    pub f2: usize,
}

/// Block lengths that have interleaver parameters: 128 to 2040 in steps of 8.
pub open spec fn is_block_length(length: int) -> bool {
    128 <= length <= 2040 && length % 8 == 0
}

/// The permutation of a QPP interleaver.
pub open spec fn qpp_index(length: int, f1: int, f2: int, i: int) -> int {
    (f1 * i + f2 * i * i) % length
}

impl QppInterleaver {
    pub open spec fn wf(self) -> bool {
        &&& is_block_length(self.length as int)
        &&& 0 < self.f1 < self.length
        &&& 0 < self.f2 < self.length
    }

    /// Number of indices that the interleaver permutes.
    pub fn len(&self) -> (r: usize)
        ensures
            r == self.length,
    {
        self.length
    }

    /// The interleaved position of index `i`.
    pub fn get(&self, i: usize) -> (r: usize)
        requires
            self.wf(),
            i < self.length,
        ensures
            r == qpp_index(self.length as int, self.f1 as int, self.f2 as int, i as int),
            r < self.length,
    {
        let n = self.length as u64;
        let i64v = i as u64;
        assert(i64v * i64v <= 2040 * 2040) by (nonlinear_arith)
            requires i64v < 2041;
        let sq = (i64v * i64v) % n;
        assert(self.f2 * sq <= 2040 * 2040) by (nonlinear_arith)
            requires self.f2 < 2041, sq < 2041;
        assert(self.f1 * i64v <= 2040 * 2040) by (nonlinear_arith)
            requires self.f1 < 2041, i64v < 2041;
        let r = ((self.f1 as u64) * i64v + (self.f2 as u64) * sq) % n;
        proof {
            lemma_qpp_mod(self.length as int, self.f1 as int, self.f2 as int, i as int);
        }
        r as usize
    }
}

/// The interleaver maps distinct indices to distinct positions, so that it
/// permutes `0..length`.
pub open spec fn is_qpp_permutation(q: QppInterleaver) -> bool {
    forall|i: int, j: int| 0 <= i < j < q.length
        ==> #[trigger] qpp_index(q.length as int, q.f1 as int, q.f2 as int, i)
            != #[trigger] qpp_index(q.length as int, q.f1 as int, q.f2 as int, j)
}

impl QppInterleaver {
    /// Whether the interleaver permutes `0..length`: checks that no two
    /// indices meet the same position.
    pub fn is_permutation(&self) -> (r: bool)
        requires
            self.wf(),
        ensures
            r == is_qpp_permutation(*self),
    {
        let n = self.length;
        let ghost q = *self;
        let mut seen: Vec<bool> = Vec::new();
        let mut k: usize = 0;
        while k < n
            invariant
                k <= n,
                seen@.len() == k,
                forall|m: int| 0 <= m < k ==> !#[trigger] seen@[m],
            decreases n - k,
        {
            seen.push(false);
            k = k + 1;
        }
        let ghost mut pre: Seq<int> = Seq::new(n as nat, |m: int| 0int);
        let mut i: usize = 0;
        while i < n
            invariant
                self.wf(),
                q == *self,
                n == self.length,
                i <= n,
                seen@.len() == n,
                pre.len() == n,
                forall|m: int| 0 <= m < n && #[trigger] seen@[m] ==> 0 <= pre[m] < i
                    && qpp_index(n as int, self.f1 as int, self.f2 as int, pre[m]) == m,
                forall|j: int| 0 <= j < i ==> #[trigger] seen@[qpp_index(n as int, self.f1 as int, self.f2 as int, j)],
                forall|a: int, b: int| 0 <= a < b < i
                    ==> #[trigger] qpp_index(n as int, self.f1 as int, self.f2 as int, a)
                        != #[trigger] qpp_index(n as int, self.f1 as int, self.f2 as int, b),
            decreases n - i,
        {
            let p = self.get(i);
            if seen[p] {
                proof {
                    let a = pre[p as int];
                    assert(qpp_index(n as int, self.f1 as int, self.f2 as int, a)
                        == qpp_index(n as int, self.f1 as int, self.f2 as int, i as int));
                    assert(!is_qpp_permutation(q));
                }
                return false;
            }
            seen.set(p, true);
            proof {
                pre = pre.update(p as int, i as int);
            }
            i = i + 1;
        }
        true
    }
}

proof fn lemma_qpp_mod(n: int, f1: int, f2: int, i: int)
    requires
        n > 0,
    ensures
        (f1 * i + f2 * ((i * i) % n)) % n == (f1 * i + f2 * i * i) % n,
{
    vstd::arithmetic::div_mod::lemma_mul_mod_noop_right(f2, i * i, n);
    vstd::arithmetic::div_mod::lemma_add_mod_noop(f1 * i, f2 * ((i * i) % n), n);
    vstd::arithmetic::div_mod::lemma_add_mod_noop(f1 * i, f2 * (i * i), n);
    vstd::arithmetic::mul::lemma_mul_is_associative(f2, i, i);
}

/// The 3GPP TS 36.212 QPP parameters `(f1, f2)` for a block of `length`
/// bits; `(0, 0)` for a length outside the table.
pub open spec fn qpp_parameters(length: usize) -> (usize, usize) {
    match length {
        128 => (7, 16),
        136 => (121, 102),
        144 => (5, 12),
        152 => (17, 114),
        160 => (9, 20),
        168 => (5, 42),
        176 => (109, 132),
        184 => (11, 46),
        192 => (23, 48),
        200 => (3, 20),
        208 => (25, 52),
        216 => (5, 18),
        224 => (13, 28),
        232 => (15, 58),
        240 => (7, 30),
        248 => (91, 186),
        256 => (15, 32),
        264 => (17, 66),
        272 => (11, 68),
        280 => (17, 70),
        288 => (7, 24),
        296 => (39, 222),
        304 => (9, 38),
        312 => (115, 78),
        320 => (19, 40),
        328 => (125, 246),
        336 => (5, 42),
        344 => (21, 86),
        352 => (21, 88),
        360 => (11, 30),
        368 => (11, 46),
        376 => (23, 94),
        384 => (35, 120),
        392 => (25, 98),
        400 => (7, 40),
        408 => (25, 102),
        416 => (25, 104),
        424 => (27, 106),
        432 => (7, 24),
        440 => (27, 110),
        448 => (13, 28),
        456 => (173, 342),
        464 => (15, 58),
        472 => (57, 118),
        480 => (29, 60),
        488 => (31, 122),
        496 => (15, 62),
        504 => (13, 42),
        512 => (15, 32),
        520 => (21, 130),
        528 => (13, 132),
        536 => (23, 134),
        544 => (9, 34),
        552 => (17, 138),
        560 => (17, 70),
        568 => (23, 142),
        576 => (7, 24),
        584 => (25, 146),
        592 => (25, 148),
        600 => (11, 60),
        608 => (37, 152),
        616 => (25, 154),
        624 => (19, 78),
        632 => (27, 158),
        640 => (19, 40),
        648 => (11, 36),
        656 => (21, 82),
        664 => (27, 166),
        672 => (41, 84),
        680 => (29, 170),
        688 => (29, 172),
        696 => (83, 174),
        704 => (43, 88),
        712 => (29, 178),
        720 => (11, 30),
        728 => (31, 182),
        736 => (45, 92),
        744 => (23, 186),
        752 => (23, 94),
        760 => (31, 190),
        768 => (23, 48),
        776 => (33, 194),
        784 => (13, 28),
        792 => (17, 66),
        800 => (33, 200),
        808 => (33, 202),
        816 => (25, 102),
        824 => (35, 206),
        832 => (51, 104),
        840 => (79, 210),
        848 => (27, 106),
        856 => (35, 214),
        864 => (17, 48),
        872 => (37, 218),
        880 => (27, 110),
        888 => (115, 222),
        896 => (27, 56),
        904 => (37, 226),
        912 => (37, 228),
        920 => (39, 230),
        928 => (57, 116),
        936 => (53, 78),
        944 => (29, 118),
        952 => (39, 238),
        960 => (41, 240),
        968 => (41, 242),
        976 => (31, 122),
        984 => (31, 246),
        992 => (61, 124),
        1000 => (19, 100),
        1008 => (13, 42),
        1016 => (43, 254),
        1024 => (31, 64),
        1032 => (97, 258),
        1040 => (33, 130),
        1048 => (43, 262),
        1056 => (43, 264),
        1064 => (33, 266),
        1072 => (33, 134),
        1080 => (19, 60),
        1088 => (33, 68),
        1096 => (45, 274),
        1104 => (35, 138),
        1112 => (35, 278),
        1120 => (69, 140),
        1128 => (35, 282),
        1136 => (35, 142),
        1144 => (47, 286),
        1152 => (23, 48),
        1160 => (49, 290),
        1168 => (37, 146),
        1176 => (11, 84),
        1184 => (143, 296),
        1192 => (37, 298),
        1200 => (23, 120),
        1208 => (37, 302),
        1216 => (37, 76),
        1224 => (67, 102),
        1232 => (39, 154),
        1240 => (53, 310),
        1248 => (77, 156),
        1256 => (51, 314),
        1264 => (39, 158),
        1272 => (119, 318),
        1280 => (39, 80),
        1288 => (41, 322),
        1296 => (23, 72),
        1304 => (53, 326),
        1312 => (27, 164),
        1320 => (41, 330),
        1328 => (41, 166),
        1336 => (41, 334),
        1344 => (41, 84),
        1352 => (43, 338),
        1360 => (43, 170),
        1368 => (77, 114),
        1376 => (29, 172),
        1384 => (217, 346),
        1392 => (43, 174),
        1400 => (13, 70),
        1408 => (21, 44),
        1416 => (35, 354),
        1424 => (45, 178),
        1432 => (135, 358),
        1440 => (29, 60),
        1448 => (227, 362),
        1456 => (45, 182),
        1464 => (37, 366),
        1472 => (45, 368),
        1480 => (47, 370),
        1488 => (47, 186),
        1496 => (141, 374),
        1504 => (23, 94),
        1512 => (29, 84),
        1520 => (47, 190),
        1528 => (47, 382),
        1536 => (47, 96),
        1544 => (49, 386),
        1552 => (49, 194),
        1560 => (49, 390),
        1568 => (15, 112),
        1576 => (67, 394),
        1584 => (47, 132),
        1592 => (49, 398),
        1600 => (17, 80),
        1608 => (103, 402),
        1616 => (51, 202),
        1624 => (69, 406),
        1632 => (35, 204),
        1640 => (67, 410),
        1648 => (51, 206),
        1656 => (91, 138),
        1664 => (25, 52),
        1672 => (53, 418),
        1680 => (53, 210),
        1688 => (69, 422),
        1696 => (27, 106),
        1704 => (43, 426),
        1712 => (53, 214),
        1720 => (53, 430),
        1728 => (31, 288),
        1736 => (55, 434),
        1744 => (55, 218),
        1752 => (107, 438),
        1760 => (37, 220),
        1768 => (75, 442),
        1776 => (55, 222),
        1784 => (55, 446),
        1792 => (27, 56),
        1800 => (17, 90),
        1808 => (57, 226),
        1816 => (77, 454),
        1824 => (37, 228),
        1832 => (75, 458),
        1840 => (57, 230),
        1848 => (323, 462),
        1856 => (57, 232),
        1864 => (59, 466),
        1872 => (17, 156),
        1880 => (77, 470),
        1888 => (29, 118),
        1896 => (47, 474),
        1904 => (59, 238),
        1912 => (59, 478),
        1920 => (29, 60),
        1928 => (61, 482),
        1936 => (61, 242),
        1944 => (35, 108),
        1952 => (31, 122),
        1960 => (19, 140),
        1968 => (61, 246),
        1976 => (49, 494),
        1984 => (15, 62),
        1992 => (127, 498),
        2000 => (19, 100),
        2008 => (85, 502),
        2016 => (41, 84),
        2024 => (51, 506),
        2032 => (63, 254),
        2040 => (43, 510),
        _ => (0, 0),
    }
}

/// The 3GPP TS 36.212 QPP interleaver for a block of `length` bits, or `None`
/// when no interleaver has that length.
pub fn new(length: usize) -> (r: Option<QppInterleaver>)
    ensures
        r.is_some() <==> is_block_length(length as int),
        r matches Some(q) ==> q.length == length && q.wf(),
        r matches Some(q) ==> (q.f1, q.f2) == qpp_parameters(length),
{
    match length {
        128 => Some(QppInterleaver { length: 128, f1: 7, f2: 16 }),
        136 => Some(QppInterleaver { length: 136, f1: 121, f2: 102 }),
        144 => Some(QppInterleaver { length: 144, f1: 5, f2: 12 }),
        152 => Some(QppInterleaver { length: 152, f1: 17, f2: 114 }),
        160 => Some(QppInterleaver { length: 160, f1: 9, f2: 20 }),
        168 => Some(QppInterleaver { length: 168, f1: 5, f2: 42 }),
        176 => Some(QppInterleaver { length: 176, f1: 109, f2: 132 }),
        184 => Some(QppInterleaver { length: 184, f1: 11, f2: 46 }),
        192 => Some(QppInterleaver { length: 192, f1: 23, f2: 48 }),
        200 => Some(QppInterleaver { length: 200, f1: 3, f2: 20 }),
        208 => Some(QppInterleaver { length: 208, f1: 25, f2: 52 }),
        216 => Some(QppInterleaver { length: 216, f1: 5, f2: 18 }),
        224 => Some(QppInterleaver { length: 224, f1: 13, f2: 28 }),
        232 => Some(QppInterleaver { length: 232, f1: 15, f2: 58 }),
        240 => Some(QppInterleaver { length: 240, f1: 7, f2: 30 }),
        248 => Some(QppInterleaver { length: 248, f1: 91, f2: 186 }),
        256 => Some(QppInterleaver { length: 256, f1: 15, f2: 32 }),
        264 => Some(QppInterleaver { length: 264, f1: 17, f2: 66 }),
        272 => Some(QppInterleaver { length: 272, f1: 11, f2: 68 }),
        280 => Some(QppInterleaver { length: 280, f1: 17, f2: 70 }),
        288 => Some(QppInterleaver { length: 288, f1: 7, f2: 24 }),
        296 => Some(QppInterleaver { length: 296, f1: 39, f2: 222 }),
        304 => Some(QppInterleaver { length: 304, f1: 9, f2: 38 }),
        312 => Some(QppInterleaver { length: 312, f1: 115, f2: 78 }),
        320 => Some(QppInterleaver { length: 320, f1: 19, f2: 40 }),
        328 => Some(QppInterleaver { length: 328, f1: 125, f2: 246 }),
        336 => Some(QppInterleaver { length: 336, f1: 5, f2: 42 }),
        344 => Some(QppInterleaver { length: 344, f1: 21, f2: 86 }),
        352 => Some(QppInterleaver { length: 352, f1: 21, f2: 88 }),
        360 => Some(QppInterleaver { length: 360, f1: 11, f2: 30 }),
        368 => Some(QppInterleaver { length: 368, f1: 11, f2: 46 }),
        376 => Some(QppInterleaver { length: 376, f1: 23, f2: 94 }),
        384 => Some(QppInterleaver { length: 384, f1: 35, f2: 120 }),
        392 => Some(QppInterleaver { length: 392, f1: 25, f2: 98 }),
        400 => Some(QppInterleaver { length: 400, f1: 7, f2: 40 }),
        408 => Some(QppInterleaver { length: 408, f1: 25, f2: 102 }),
        416 => Some(QppInterleaver { length: 416, f1: 25, f2: 104 }),
        424 => Some(QppInterleaver { length: 424, f1: 27, f2: 106 }),
        432 => Some(QppInterleaver { length: 432, f1: 7, f2: 24 }),
        440 => Some(QppInterleaver { length: 440, f1: 27, f2: 110 }),
        448 => Some(QppInterleaver { length: 448, f1: 13, f2: 28 }),
        456 => Some(QppInterleaver { length: 456, f1: 173, f2: 342 }),
        464 => Some(QppInterleaver { length: 464, f1: 15, f2: 58 }),
        472 => Some(QppInterleaver { length: 472, f1: 57, f2: 118 }),
        480 => Some(QppInterleaver { length: 480, f1: 29, f2: 60 }),
        488 => Some(QppInterleaver { length: 488, f1: 31, f2: 122 }),
        496 => Some(QppInterleaver { length: 496, f1: 15, f2: 62 }),
        504 => Some(QppInterleaver { length: 504, f1: 13, f2: 42 }),
        512 => Some(QppInterleaver { length: 512, f1: 15, f2: 32 }),
        520 => Some(QppInterleaver { length: 520, f1: 21, f2: 130 }),
        528 => Some(QppInterleaver { length: 528, f1: 13, f2: 132 }),
        536 => Some(QppInterleaver { length: 536, f1: 23, f2: 134 }),
        544 => Some(QppInterleaver { length: 544, f1: 9, f2: 34 }),
        552 => Some(QppInterleaver { length: 552, f1: 17, f2: 138 }),
        560 => Some(QppInterleaver { length: 560, f1: 17, f2: 70 }),
        568 => Some(QppInterleaver { length: 568, f1: 23, f2: 142 }),
        576 => Some(QppInterleaver { length: 576, f1: 7, f2: 24 }),
        584 => Some(QppInterleaver { length: 584, f1: 25, f2: 146 }),
        592 => Some(QppInterleaver { length: 592, f1: 25, f2: 148 }),
        600 => Some(QppInterleaver { length: 600, f1: 11, f2: 60 }),
        608 => Some(QppInterleaver { length: 608, f1: 37, f2: 152 }),
        616 => Some(QppInterleaver { length: 616, f1: 25, f2: 154 }),
        624 => Some(QppInterleaver { length: 624, f1: 19, f2: 78 }),
        632 => Some(QppInterleaver { length: 632, f1: 27, f2: 158 }),
        640 => Some(QppInterleaver { length: 640, f1: 19, f2: 40 }),
        648 => Some(QppInterleaver { length: 648, f1: 11, f2: 36 }),
        656 => Some(QppInterleaver { length: 656, f1: 21, f2: 82 }),
        664 => Some(QppInterleaver { length: 664, f1: 27, f2: 166 }),
        672 => Some(QppInterleaver { length: 672, f1: 41, f2: 84 }),
        680 => Some(QppInterleaver { length: 680, f1: 29, f2: 170 }),
        688 => Some(QppInterleaver { length: 688, f1: 29, f2: 172 }),
        696 => Some(QppInterleaver { length: 696, f1: 83, f2: 174 }),
        704 => Some(QppInterleaver { length: 704, f1: 43, f2: 88 }),
        712 => Some(QppInterleaver { length: 712, f1: 29, f2: 178 }),
        720 => Some(QppInterleaver { length: 720, f1: 11, f2: 30 }),
        728 => Some(QppInterleaver { length: 728, f1: 31, f2: 182 }),
        736 => Some(QppInterleaver { length: 736, f1: 45, f2: 92 }),
        744 => Some(QppInterleaver { length: 744, f1: 23, f2: 186 }),
        752 => Some(QppInterleaver { length: 752, f1: 23, f2: 94 }),
        760 => Some(QppInterleaver { length: 760, f1: 31, f2: 190 }),
        768 => Some(QppInterleaver { length: 768, f1: 23, f2: 48 }),
        776 => Some(QppInterleaver { length: 776, f1: 33, f2: 194 }),
        784 => Some(QppInterleaver { length: 784, f1: 13, f2: 28 }),
        792 => Some(QppInterleaver { length: 792, f1: 17, f2: 66 }),
        800 => Some(QppInterleaver { length: 800, f1: 33, f2: 200 }),
        808 => Some(QppInterleaver { length: 808, f1: 33, f2: 202 }),
        816 => Some(QppInterleaver { length: 816, f1: 25, f2: 102 }),
        824 => Some(QppInterleaver { length: 824, f1: 35, f2: 206 }),
        832 => Some(QppInterleaver { length: 832, f1: 51, f2: 104 }),
        840 => Some(QppInterleaver { length: 840, f1: 79, f2: 210 }),
        848 => Some(QppInterleaver { length: 848, f1: 27, f2: 106 }),
        856 => Some(QppInterleaver { length: 856, f1: 35, f2: 214 }),
        864 => Some(QppInterleaver { length: 864, f1: 17, f2: 48 }),
        872 => Some(QppInterleaver { length: 872, f1: 37, f2: 218 }),
        880 => Some(QppInterleaver { length: 880, f1: 27, f2: 110 }),
        888 => Some(QppInterleaver { length: 888, f1: 115, f2: 222 }),
        896 => Some(QppInterleaver { length: 896, f1: 27, f2: 56 }),
        904 => Some(QppInterleaver { length: 904, f1: 37, f2: 226 }),
        912 => Some(QppInterleaver { length: 912, f1: 37, f2: 228 }),
        920 => Some(QppInterleaver { length: 920, f1: 39, f2: 230 }),
        928 => Some(QppInterleaver { length: 928, f1: 57, f2: 116 }),
        936 => Some(QppInterleaver { length: 936, f1: 53, f2: 78 }),
        944 => Some(QppInterleaver { length: 944, f1: 29, f2: 118 }),
        952 => Some(QppInterleaver { length: 952, f1: 39, f2: 238 }),
        960 => Some(QppInterleaver { length: 960, f1: 41, f2: 240 }),
        968 => Some(QppInterleaver { length: 968, f1: 41, f2: 242 }),
        976 => Some(QppInterleaver { length: 976, f1: 31, f2: 122 }),
        984 => Some(QppInterleaver { length: 984, f1: 31, f2: 246 }),
        992 => Some(QppInterleaver { length: 992, f1: 61, f2: 124 }),
        1000 => Some(QppInterleaver { length: 1000, f1: 19, f2: 100 }),
        1008 => Some(QppInterleaver { length: 1008, f1: 13, f2: 42 }),
        1016 => Some(QppInterleaver { length: 1016, f1: 43, f2: 254 }),
        1024 => Some(QppInterleaver { length: 1024, f1: 31, f2: 64 }),
        1032 => Some(QppInterleaver { length: 1032, f1: 97, f2: 258 }),
        1040 => Some(QppInterleaver { length: 1040, f1: 33, f2: 130 }),
        1048 => Some(QppInterleaver { length: 1048, f1: 43, f2: 262 }),
        1056 => Some(QppInterleaver { length: 1056, f1: 43, f2: 264 }),
        1064 => Some(QppInterleaver { length: 1064, f1: 33, f2: 266 }),
        1072 => Some(QppInterleaver { length: 1072, f1: 33, f2: 134 }),
        1080 => Some(QppInterleaver { length: 1080, f1: 19, f2: 60 }),
        1088 => Some(QppInterleaver { length: 1088, f1: 33, f2: 68 }),
        1096 => Some(QppInterleaver { length: 1096, f1: 45, f2: 274 }),
        1104 => Some(QppInterleaver { length: 1104, f1: 35, f2: 138 }),
        1112 => Some(QppInterleaver { length: 1112, f1: 35, f2: 278 }),
        1120 => Some(QppInterleaver { length: 1120, f1: 69, f2: 140 }),
        1128 => Some(QppInterleaver { length: 1128, f1: 35, f2: 282 }),
        1136 => Some(QppInterleaver { length: 1136, f1: 35, f2: 142 }),
        1144 => Some(QppInterleaver { length: 1144, f1: 47, f2: 286 }),
        1152 => Some(QppInterleaver { length: 1152, f1: 23, f2: 48 }),
        1160 => Some(QppInterleaver { length: 1160, f1: 49, f2: 290 }),
        1168 => Some(QppInterleaver { length: 1168, f1: 37, f2: 146 }),
        1176 => Some(QppInterleaver { length: 1176, f1: 11, f2: 84 }),
        1184 => Some(QppInterleaver { length: 1184, f1: 143, f2: 296 }),
        1192 => Some(QppInterleaver { length: 1192, f1: 37, f2: 298 }),
        1200 => Some(QppInterleaver { length: 1200, f1: 23, f2: 120 }),
        1208 => Some(QppInterleaver { length: 1208, f1: 37, f2: 302 }),
        1216 => Some(QppInterleaver { length: 1216, f1: 37, f2: 76 }),
        1224 => Some(QppInterleaver { length: 1224, f1: 67, f2: 102 }),
        1232 => Some(QppInterleaver { length: 1232, f1: 39, f2: 154 }),
        1240 => Some(QppInterleaver { length: 1240, f1: 53, f2: 310 }),
        1248 => Some(QppInterleaver { length: 1248, f1: 77, f2: 156 }),
        1256 => Some(QppInterleaver { length: 1256, f1: 51, f2: 314 }),
        1264 => Some(QppInterleaver { length: 1264, f1: 39, f2: 158 }),
        1272 => Some(QppInterleaver { length: 1272, f1: 119, f2: 318 }),
        1280 => Some(QppInterleaver { length: 1280, f1: 39, f2: 80 }),
        1288 => Some(QppInterleaver { length: 1288, f1: 41, f2: 322 }),
        1296 => Some(QppInterleaver { length: 1296, f1: 23, f2: 72 }),
        1304 => Some(QppInterleaver { length: 1304, f1: 53, f2: 326 }),
        1312 => Some(QppInterleaver { length: 1312, f1: 27, f2: 164 }),
        1320 => Some(QppInterleaver { length: 1320, f1: 41, f2: 330 }),
        1328 => Some(QppInterleaver { length: 1328, f1: 41, f2: 166 }),
        1336 => Some(QppInterleaver { length: 1336, f1: 41, f2: 334 }),
        1344 => Some(QppInterleaver { length: 1344, f1: 41, f2: 84 }),
        1352 => Some(QppInterleaver { length: 1352, f1: 43, f2: 338 }),
        1360 => Some(QppInterleaver { length: 1360, f1: 43, f2: 170 }),
        1368 => Some(QppInterleaver { length: 1368, f1: 77, f2: 114 }),
        1376 => Some(QppInterleaver { length: 1376, f1: 29, f2: 172 }),
        1384 => Some(QppInterleaver { length: 1384, f1: 217, f2: 346 }),
        1392 => Some(QppInterleaver { length: 1392, f1: 43, f2: 174 }),
        1400 => Some(QppInterleaver { length: 1400, f1: 13, f2: 70 }),
        1408 => Some(QppInterleaver { length: 1408, f1: 21, f2: 44 }),
        1416 => Some(QppInterleaver { length: 1416, f1: 35, f2: 354 }),
        1424 => Some(QppInterleaver { length: 1424, f1: 45, f2: 178 }),
        1432 => Some(QppInterleaver { length: 1432, f1: 135, f2: 358 }),
        1440 => Some(QppInterleaver { length: 1440, f1: 29, f2: 60 }),
        1448 => Some(QppInterleaver { length: 1448, f1: 227, f2: 362 }),
        1456 => Some(QppInterleaver { length: 1456, f1: 45, f2: 182 }),
        1464 => Some(QppInterleaver { length: 1464, f1: 37, f2: 366 }),
        1472 => Some(QppInterleaver { length: 1472, f1: 45, f2: 368 }),
        1480 => Some(QppInterleaver { length: 1480, f1: 47, f2: 370 }),
        1488 => Some(QppInterleaver { length: 1488, f1: 47, f2: 186 }),
        1496 => Some(QppInterleaver { length: 1496, f1: 141, f2: 374 }),
        1504 => Some(QppInterleaver { length: 1504, f1: 23, f2: 94 }),
        1512 => Some(QppInterleaver { length: 1512, f1: 29, f2: 84 }),
        1520 => Some(QppInterleaver { length: 1520, f1: 47, f2: 190 }),
        1528 => Some(QppInterleaver { length: 1528, f1: 47, f2: 382 }),
        1536 => Some(QppInterleaver { length: 1536, f1: 47, f2: 96 }),
        1544 => Some(QppInterleaver { length: 1544, f1: 49, f2: 386 }),
        1552 => Some(QppInterleaver { length: 1552, f1: 49, f2: 194 }),
        1560 => Some(QppInterleaver { length: 1560, f1: 49, f2: 390 }),
        1568 => Some(QppInterleaver { length: 1568, f1: 15, f2: 112 }),
        1576 => Some(QppInterleaver { length: 1576, f1: 67, f2: 394 }),
        1584 => Some(QppInterleaver { length: 1584, f1: 47, f2: 132 }),
        1592 => Some(QppInterleaver { length: 1592, f1: 49, f2: 398 }),
        1600 => Some(QppInterleaver { length: 1600, f1: 17, f2: 80 }),
        1608 => Some(QppInterleaver { length: 1608, f1: 103, f2: 402 }),
        1616 => Some(QppInterleaver { length: 1616, f1: 51, f2: 202 }),
        1624 => Some(QppInterleaver { length: 1624, f1: 69, f2: 406 }),
        1632 => Some(QppInterleaver { length: 1632, f1: 35, f2: 204 }),
        1640 => Some(QppInterleaver { length: 1640, f1: 67, f2: 410 }),
        1648 => Some(QppInterleaver { length: 1648, f1: 51, f2: 206 }),
        1656 => Some(QppInterleaver { length: 1656, f1: 91, f2: 138 }),
        1664 => Some(QppInterleaver { length: 1664, f1: 25, f2: 52 }),
        1672 => Some(QppInterleaver { length: 1672, f1: 53, f2: 418 }),
        1680 => Some(QppInterleaver { length: 1680, f1: 53, f2: 210 }),
        1688 => Some(QppInterleaver { length: 1688, f1: 69, f2: 422 }),
        1696 => Some(QppInterleaver { length: 1696, f1: 27, f2: 106 }),
        1704 => Some(QppInterleaver { length: 1704, f1: 43, f2: 426 }),
        1712 => Some(QppInterleaver { length: 1712, f1: 53, f2: 214 }),
        1720 => Some(QppInterleaver { length: 1720, f1: 53, f2: 430 }),
        1728 => Some(QppInterleaver { length: 1728, f1: 31, f2: 288 }),
        1736 => Some(QppInterleaver { length: 1736, f1: 55, f2: 434 }),
        1744 => Some(QppInterleaver { length: 1744, f1: 55, f2: 218 }),
        1752 => Some(QppInterleaver { length: 1752, f1: 107, f2: 438 }),
        1760 => Some(QppInterleaver { length: 1760, f1: 37, f2: 220 }),
        1768 => Some(QppInterleaver { length: 1768, f1: 75, f2: 442 }),
        1776 => Some(QppInterleaver { length: 1776, f1: 55, f2: 222 }),
        1784 => Some(QppInterleaver { length: 1784, f1: 55, f2: 446 }),
        1792 => Some(QppInterleaver { length: 1792, f1: 27, f2: 56 }),
        1800 => Some(QppInterleaver { length: 1800, f1: 17, f2: 90 }),
        1808 => Some(QppInterleaver { length: 1808, f1: 57, f2: 226 }),
        1816 => Some(QppInterleaver { length: 1816, f1: 77, f2: 454 }),
        1824 => Some(QppInterleaver { length: 1824, f1: 37, f2: 228 }),
        1832 => Some(QppInterleaver { length: 1832, f1: 75, f2: 458 }),
        1840 => Some(QppInterleaver { length: 1840, f1: 57, f2: 230 }),
        1848 => Some(QppInterleaver { length: 1848, f1: 323, f2: 462 }),
        1856 => Some(QppInterleaver { length: 1856, f1: 57, f2: 232 }),
        1864 => Some(QppInterleaver { length: 1864, f1: 59, f2: 466 }),
        1872 => Some(QppInterleaver { length: 1872, f1: 17, f2: 156 }),
        1880 => Some(QppInterleaver { length: 1880, f1: 77, f2: 470 }),
        1888 => Some(QppInterleaver { length: 1888, f1: 29, f2: 118 }),
        1896 => Some(QppInterleaver { length: 1896, f1: 47, f2: 474 }),
        1904 => Some(QppInterleaver { length: 1904, f1: 59, f2: 238 }),
        1912 => Some(QppInterleaver { length: 1912, f1: 59, f2: 478 }),
        1920 => Some(QppInterleaver { length: 1920, f1: 29, f2: 60 }),
        1928 => Some(QppInterleaver { length: 1928, f1: 61, f2: 482 }),
        1936 => Some(QppInterleaver { length: 1936, f1: 61, f2: 242 }),
        1944 => Some(QppInterleaver { length: 1944, f1: 35, f2: 108 }),
        1952 => Some(QppInterleaver { length: 1952, f1: 31, f2: 122 }),
        1960 => Some(QppInterleaver { length: 1960, f1: 19, f2: 140 }),
        1968 => Some(QppInterleaver { length: 1968, f1: 61, f2: 246 }),
        1976 => Some(QppInterleaver { length: 1976, f1: 49, f2: 494 }),
        1984 => Some(QppInterleaver { length: 1984, f1: 15, f2: 62 }),
        1992 => Some(QppInterleaver { length: 1992, f1: 127, f2: 498 }),
        2000 => Some(QppInterleaver { length: 2000, f1: 19, f2: 100 }),
        2008 => Some(QppInterleaver { length: 2008, f1: 85, f2: 502 }),
        2016 => Some(QppInterleaver { length: 2016, f1: 41, f2: 84 }),
        2024 => Some(QppInterleaver { length: 2024, f1: 51, f2: 506 }),
        2032 => Some(QppInterleaver { length: 2032, f1: 63, f2: 254 }),
        2040 => Some(QppInterleaver { length: 2040, f1: 43, f2: 510 }),
        _ => None,
    }
}

} // verus!
