//! The substitution table of the bar layer.

use vstd::prelude::*;

verus! {

/// Number of entries of the substitution table.
pub const SBOX_LEN: u64 = 661;

/// Digits below this threshold are substituted; the others stay as they are.
pub const SBOX_THRESHOLD: u64 = 659;

/// The substitution table. It sends the digits below the threshold to digits
/// below the threshold; its last two entries, at and above the threshold,
/// stand for themselves.
pub const SBOX: [u64; 661] = [
    15, 187, 186, 168, 493, 102, 296, 11, 164, 155, 527, 103,
    192, 589, 543, 450, 647, 72, 343, 386, 279, 616, 225, 140,
    313, 586, 276, 57, 162, 68, 179, 445, 418, 364, 46, 591,
    541, 218, 0, 437, 618, 157, 657, 49, 120, 469, 142, 325,
    183, 123, 23, 468, 619, 217, 472, 226, 212, 406, 4, 499,
    182, 51, 141, 86, 596, 70, 149, 355, 351, 245, 52, 193,
    311, 244, 375, 300, 399, 590, 143, 24, 190, 517, 208, 539,
    544, 236, 393, 34, 203, 60, 151, 243, 542, 299, 368, 289,
    272, 567, 280, 599, 625, 341, 462, 509, 153, 374, 213, 477,
    310, 347, 572, 71, 579, 158, 412, 587, 63, 172, 640, 173,
    101, 439, 5, 92, 501, 500, 330, 633, 630, 328, 488, 356,
    89, 224, 383, 96, 643, 585, 422, 41, 295, 642, 571, 247,
    239, 600, 561, 319, 480, 570, 652, 134, 620, 484, 525, 333,
    177, 209, 8, 211, 402, 478, 574, 148, 365, 83, 635, 44,
    646, 204, 414, 413, 398, 449, 363, 588, 65, 617, 658, 126,
    178, 536, 624, 201, 513, 506, 384, 336, 382, 348, 223, 316,
    629, 88, 18, 278, 287, 524, 257, 421, 639, 424, 452, 511,
    564, 538, 214, 514, 307, 31, 93, 471, 104, 528, 234, 352,
    255, 534, 580, 113, 360, 526, 614, 532, 603, 537, 1, 370,
    121, 430, 32, 417, 426, 391, 644, 358, 206, 3, 504, 13,
    557, 444, 284, 584, 39, 251, 176, 508, 94, 156, 33, 273,
    496, 246, 321, 58, 21, 165, 638, 436, 10, 145, 194, 498,
    267, 292, 90, 497, 505, 510, 80, 435, 303, 42, 533, 529,
    453, 329, 428, 35, 337, 269, 229, 297, 85, 562, 440, 357,
    95, 50, 559, 446, 656, 606, 457, 459, 390, 59, 611, 306,
    623, 188, 650, 582, 170, 249, 16, 380, 230, 130, 169, 138,
    612, 207, 227, 598, 47, 483, 73, 67, 106, 175, 655, 22,
    77, 133, 283, 377, 112, 232, 429, 117, 111, 332, 6, 324,
    7, 409, 302, 260, 216, 320, 166, 475, 465, 45, 366, 519,
    335, 200, 215, 205, 262, 419, 147, 237, 282, 359, 174, 379,
    441, 551, 473, 605, 427, 474, 387, 84, 171, 222, 37, 565,
    48, 549, 161, 521, 566, 518, 568, 403, 597, 397, 154, 649,
    53, 522, 416, 240, 372, 645, 261, 314, 309, 395, 373, 20,
    119, 27, 608, 340, 609, 361, 503, 241, 602, 30, 275, 569,
    423, 454, 150, 621, 415, 344, 535, 411, 540, 199, 442, 371,
    404, 210, 322, 432, 492, 560, 250, 132, 627, 233, 202, 304,
    641, 338, 74, 575, 408, 425, 291, 135, 318, 601, 159, 489,
    556, 385, 548, 554, 81, 362, 108, 270, 405, 136, 576, 55,
    389, 354, 604, 388, 97, 198, 317, 334, 458, 491, 259, 583,
    369, 129, 546, 87, 327, 266, 401, 550, 69, 274, 615, 400,
    181, 353, 196, 456, 595, 420, 122, 392, 185, 516, 466, 476,
    75, 235, 530, 448, 594, 378, 455, 447, 577, 285, 99, 558,
    653, 410, 461, 160, 331, 290, 563, 613, 219, 394, 29, 552,
    9, 189, 298, 137, 56, 636, 12, 581, 2, 109, 339, 127,
    36, 443, 573, 523, 451, 479, 286, 28, 116, 312, 628, 545,
    54, 82, 651, 482, 131, 26, 396, 271, 593, 124, 107, 515,
    114, 407, 654, 268, 342, 277, 254, 14, 79, 191, 43, 252,
    512, 256, 220, 381, 66, 481, 19, 228, 367, 487, 434, 349,
    144, 460, 91, 495, 78, 195, 490, 67, 486, 64, 105, 467,
    231, 507, 376, 248, 631, 520, 464, 221, 433, 622, 531, 197,
    61, 163, 98, 648, 146, 238, 494, 125, 76, 242, 463, 326,
    38, 152, 438, 345, 637, 40, 17, 281, 323, 110, 118, 578,
    139, 315, 115, 62, 470, 293, 265, 258, 553, 301, 610, 555,
    305, 634, 308, 626, 180, 253, 350, 502, 184, 431, 294, 264,
    288, 632, 25, 607, 485, 592, 263, 128, 547, 100, 346, 659,
    660,
];

/// What the substitution table holds at `x`.
pub closed spec fn sbox_at(x: int) -> nat {
    SBOX[x] as nat
}

/// The entry of the substitution table at `x`.
#[verifier::rlimit(40)]
pub fn sbox_entry(x: u64) -> (y: u64)
    requires
        x < SBOX_LEN,
    ensures
        y == sbox_at(x as int),
        x < SBOX_THRESHOLD ==> y < SBOX_THRESHOLD,
        x >= SBOX_THRESHOLD ==> y == x,
{
    SBOX[x as usize]
}

/// The table maps the digits below the threshold among themselves, and the
/// two entries above it to themselves.
#[verifier::rlimit(40)]
pub proof fn lemma_sbox_range(x: int)
    requires
        0 <= x < SBOX_LEN,
    ensures
        x < SBOX_THRESHOLD ==> sbox_at(x) < SBOX_THRESHOLD,
        x >= SBOX_THRESHOLD ==> sbox_at(x) == x,
{
}

/// `sbox_at` reads the table.
pub proof fn lemma_sbox_at(x: int)
    requires
        0 <= x < SBOX_LEN,
    ensures
        sbox_at(x) == SBOX[x],
{
}

} // verus!
