//! The Huffman code of header strings, in the order of its code words.
//!
//! Code words of one length are consecutive numbers, and shorter ones come first.
//! So a symbol is known by its rank among all symbols, and a code word by its
//! length and by its distance from the first code word of that length.
use vstd::prelude::*;

verus! {

/// Length of the longest code word, in bits.
pub const MAX_CODE_LEN: u32 = 30;

/// Rank of the symbol that ends a string. It is never written.
pub const EOS_RANK: u16 = 256;

/// How many code words are shorter than that of `sym`, or as long and smaller.
pub open spec fn rank(sym: u8) -> u16 {
    match sym {
        0 => 84, 1 => 145, 2 => 224, 3 => 225,
        4 => 226, 5 => 227, 6 => 228, 7 => 229,
        8 => 230, 9 => 174, 10 => 253, 11 => 231,
        12 => 232, 13 => 254, 14 => 233, 15 => 234,
        16 => 235, 17 => 236, 18 => 237, 19 => 238,
        20 => 239, 21 => 240, 22 => 255, 23 => 241,
        24 => 242, 25 => 243, 26 => 244, 27 => 245,
        28 => 246, 29 => 247, 30 => 248, 31 => 249,
        32 => 10, 33 => 74, 34 => 75, 35 => 82,
        36 => 85, 37 => 11, 38 => 68, 39 => 79,
        40 => 76, 41 => 77, 42 => 69, 43 => 80,
        44 => 70, 45 => 12, 46 => 13, 47 => 14,
        48 => 0, 49 => 1, 50 => 2, 51 => 15,
        52 => 16, 53 => 17, 54 => 18, 55 => 19,
        56 => 20, 57 => 21, 58 => 36, 59 => 71,
        60 => 92, 61 => 22, 62 => 83, 63 => 78,
        64 => 86, 65 => 23, 66 => 37, 67 => 38,
        68 => 39, 69 => 40, 70 => 41, 71 => 42,
        72 => 43, 73 => 44, 74 => 45, 75 => 46,
        76 => 47, 77 => 48, 78 => 49, 79 => 50,
        80 => 51, 81 => 52, 82 => 53, 83 => 54,
        84 => 55, 85 => 56, 86 => 57, 87 => 58,
        88 => 72, 89 => 59, 90 => 73, 91 => 87,
        92 => 95, 93 => 88, 94 => 90, 95 => 24,
        96 => 93, 97 => 3, 98 => 25, 99 => 4,
        100 => 26, 101 => 5, 102 => 27, 103 => 28,
        104 => 29, 105 => 6, 106 => 60, 107 => 61,
        108 => 30, 109 => 31, 110 => 32, 111 => 7,
        112 => 33, 113 => 62, 114 => 34, 115 => 8,
        116 => 9, 117 => 35, 118 => 63, 119 => 64,
        120 => 65, 121 => 66, 122 => 67, 123 => 94,
        124 => 81, 125 => 91, 126 => 89, 127 => 250,
        128 => 98, 129 => 119, 130 => 99, 131 => 100,
        132 => 120, 133 => 121, 134 => 122, 135 => 146,
        136 => 123, 137 => 147, 138 => 148, 139 => 149,
        140 => 150, 141 => 151, 142 => 175, 143 => 152,
        144 => 176, 145 => 177, 146 => 124, 147 => 153,
        148 => 178, 149 => 154, 150 => 155, 151 => 156,
        152 => 157, 153 => 106, 154 => 125, 155 => 158,
        156 => 126, 157 => 159, 158 => 160, 159 => 179,
        160 => 127, 161 => 107, 162 => 101, 163 => 128,
        164 => 129, 165 => 161, 166 => 162, 167 => 108,
        168 => 163, 169 => 130, 170 => 131, 171 => 180,
        172 => 109, 173 => 132, 174 => 164, 175 => 165,
        176 => 110, 177 => 111, 178 => 133, 179 => 112,
        180 => 166, 181 => 134, 182 => 167, 183 => 168,
        184 => 102, 185 => 135, 186 => 136, 187 => 137,
        188 => 169, 189 => 138, 190 => 139, 191 => 170,
        192 => 190, 193 => 191, 194 => 103, 195 => 96,
        196 => 140, 197 => 171, 198 => 141, 199 => 186,
        200 => 192, 201 => 193, 202 => 194, 203 => 205,
        204 => 206, 205 => 195, 206 => 181, 207 => 187,
        208 => 97, 209 => 113, 210 => 196, 211 => 207,
        212 => 208, 213 => 197, 214 => 209, 215 => 182,
        216 => 114, 217 => 115, 218 => 198, 219 => 199,
        220 => 251, 221 => 210, 222 => 211, 223 => 212,
        224 => 104, 225 => 183, 226 => 105, 227 => 116,
        228 => 142, 229 => 117, 230 => 118, 231 => 172,
        232 => 143, 233 => 144, 234 => 188, 235 => 189,
        236 => 184, 237 => 185, 238 => 200, 239 => 173,
        240 => 201, 241 => 213, 242 => 202, 243 => 203,
        244 => 214, 245 => 215, 246 => 216, 247 => 217,
        248 => 218, 249 => 252, 250 => 219, 251 => 220,
        252 => 221, 253 => 222, 254 => 223,
        _ => 204,
    }
}

/// The symbol with a given rank; of a rank over 255 it says nothing.
pub open spec fn symbol(rank: u16) -> u8 {
    match rank {
        0 => 48, 1 => 49, 2 => 50, 3 => 97,
        4 => 99, 5 => 101, 6 => 105, 7 => 111,
        8 => 115, 9 => 116, 10 => 32, 11 => 37,
        12 => 45, 13 => 46, 14 => 47, 15 => 51,
        16 => 52, 17 => 53, 18 => 54, 19 => 55,
        20 => 56, 21 => 57, 22 => 61, 23 => 65,
        24 => 95, 25 => 98, 26 => 100, 27 => 102,
        28 => 103, 29 => 104, 30 => 108, 31 => 109,
        32 => 110, 33 => 112, 34 => 114, 35 => 117,
        36 => 58, 37 => 66, 38 => 67, 39 => 68,
        40 => 69, 41 => 70, 42 => 71, 43 => 72,
        44 => 73, 45 => 74, 46 => 75, 47 => 76,
        48 => 77, 49 => 78, 50 => 79, 51 => 80,
        52 => 81, 53 => 82, 54 => 83, 55 => 84,
        56 => 85, 57 => 86, 58 => 87, 59 => 89,
        60 => 106, 61 => 107, 62 => 113, 63 => 118,
        64 => 119, 65 => 120, 66 => 121, 67 => 122,
        68 => 38, 69 => 42, 70 => 44, 71 => 59,
        72 => 88, 73 => 90, 74 => 33, 75 => 34,
        76 => 40, 77 => 41, 78 => 63, 79 => 39,
        80 => 43, 81 => 124, 82 => 35, 83 => 62,
        84 => 0, 85 => 36, 86 => 64, 87 => 91,
        88 => 93, 89 => 126, 90 => 94, 91 => 125,
        92 => 60, 93 => 96, 94 => 123, 95 => 92,
        96 => 195, 97 => 208, 98 => 128, 99 => 130,
        100 => 131, 101 => 162, 102 => 184, 103 => 194,
        104 => 224, 105 => 226, 106 => 153, 107 => 161,
        108 => 167, 109 => 172, 110 => 176, 111 => 177,
        112 => 179, 113 => 209, 114 => 216, 115 => 217,
        116 => 227, 117 => 229, 118 => 230, 119 => 129,
        120 => 132, 121 => 133, 122 => 134, 123 => 136,
        124 => 146, 125 => 154, 126 => 156, 127 => 160,
        128 => 163, 129 => 164, 130 => 169, 131 => 170,
        132 => 173, 133 => 178, 134 => 181, 135 => 185,
        136 => 186, 137 => 187, 138 => 189, 139 => 190,
        140 => 196, 141 => 198, 142 => 228, 143 => 232,
        144 => 233, 145 => 1, 146 => 135, 147 => 137,
        148 => 138, 149 => 139, 150 => 140, 151 => 141,
        152 => 143, 153 => 147, 154 => 149, 155 => 150,
        156 => 151, 157 => 152, 158 => 155, 159 => 157,
        160 => 158, 161 => 165, 162 => 166, 163 => 168,
        164 => 174, 165 => 175, 166 => 180, 167 => 182,
        168 => 183, 169 => 188, 170 => 191, 171 => 197,
        172 => 231, 173 => 239, 174 => 9, 175 => 142,
        176 => 144, 177 => 145, 178 => 148, 179 => 159,
        180 => 171, 181 => 206, 182 => 215, 183 => 225,
        184 => 236, 185 => 237, 186 => 199, 187 => 207,
        188 => 234, 189 => 235, 190 => 192, 191 => 193,
        192 => 200, 193 => 201, 194 => 202, 195 => 205,
        196 => 210, 197 => 213, 198 => 218, 199 => 219,
        200 => 238, 201 => 240, 202 => 242, 203 => 243,
        204 => 255, 205 => 203, 206 => 204, 207 => 211,
        208 => 212, 209 => 214, 210 => 221, 211 => 222,
        212 => 223, 213 => 241, 214 => 244, 215 => 245,
        216 => 246, 217 => 247, 218 => 248, 219 => 250,
        220 => 251, 221 => 252, 222 => 253, 223 => 254,
        224 => 2, 225 => 3, 226 => 4, 227 => 5,
        228 => 6, 229 => 7, 230 => 8, 231 => 11,
        232 => 12, 233 => 14, 234 => 15, 235 => 16,
        236 => 17, 237 => 18, 238 => 19, 239 => 20,
        240 => 21, 241 => 23, 242 => 24, 243 => 25,
        244 => 26, 245 => 27, 246 => 28, 247 => 29,
        248 => 30, 249 => 31, 250 => 127, 251 => 220,
        252 => 249, 253 => 10, 254 => 13,
        _ => 22,
    }
}

/// One more than the largest code word of `len` bits.
pub open spec fn limit(len: u32) -> u32 {
    match len {
        5 => 10,
        6 => 46,
        7 => 124,
        8 => 254,
        9 => 508,
        10 => 1021,
        11 => 2045,
        12 => 4092,
        13 => 8190,
        14 => 16382,
        15 => 32767,
        16 => 65534,
        17 => 131068,
        18 => 262136,
        19 => 524275,
        20 => 1048558,
        21 => 2097129,
        22 => 4194284,
        23 => 8388597,
        24 => 16777206,
        25 => 33554416,
        26 => 67108847,
        27 => 134217713,
        28 => 268435455,
        29 => 536870910,
        30 => 1073741824,
        _ => 0,
    }
}

/// The rank of the first code word of at least `len` bits.
pub open spec fn base(len: u32) -> u32 {
    match len {
        6 => 10,
        7 => 36,
        8 => 68,
        9 => 74,
        10 => 74,
        11 => 79,
        12 => 82,
        13 => 84,
        14 => 90,
        15 => 92,
        16 => 95,
        17 => 95,
        18 => 95,
        19 => 95,
        20 => 98,
        21 => 106,
        22 => 119,
        23 => 145,
        24 => 174,
        25 => 186,
        26 => 190,
        27 => 205,
        28 => 224,
        29 => 253,
        30 => 253,
        31 => 257,
        _ => 0,
    }
}

/// The first number of `len` bits that no shorter code word begins.
pub open spec fn first(len: u32) -> u32
    recommends
        len > 0,
{
    (2 * limit((len - 1) as u32)) as u32
}

/// The length of the code word with a given rank.
pub open spec fn code_len(rank: u16) -> u32 {
    if rank < 10 {
        5
    } else if rank < 36 {
        6
    } else if rank < 68 {
        7
    } else if rank < 74 {
        8
    } else if rank < 79 {
        10
    } else if rank < 82 {
        11
    } else if rank < 84 {
        12
    } else if rank < 90 {
        13
    } else if rank < 92 {
        14
    } else if rank < 95 {
        15
    } else if rank < 98 {
        19
    } else if rank < 106 {
        20
    } else if rank < 119 {
        21
    } else if rank < 145 {
        22
    } else if rank < 174 {
        23
    } else if rank < 186 {
        24
    } else if rank < 190 {
        25
    } else if rank < 205 {
        26
    } else if rank < 224 {
        27
    } else if rank < 253 {
        28
    } else {
        30
    }
}

pub fn rank_of(sym: u8) -> (r: u16)
    ensures
        r == rank(sym),
{
    match sym {
        0 => 84, 1 => 145, 2 => 224, 3 => 225,
        4 => 226, 5 => 227, 6 => 228, 7 => 229,
        8 => 230, 9 => 174, 10 => 253, 11 => 231,
        12 => 232, 13 => 254, 14 => 233, 15 => 234,
        16 => 235, 17 => 236, 18 => 237, 19 => 238,
        20 => 239, 21 => 240, 22 => 255, 23 => 241,
        24 => 242, 25 => 243, 26 => 244, 27 => 245,
        28 => 246, 29 => 247, 30 => 248, 31 => 249,
        32 => 10, 33 => 74, 34 => 75, 35 => 82,
        36 => 85, 37 => 11, 38 => 68, 39 => 79,
        40 => 76, 41 => 77, 42 => 69, 43 => 80,
        44 => 70, 45 => 12, 46 => 13, 47 => 14,
        48 => 0, 49 => 1, 50 => 2, 51 => 15,
        52 => 16, 53 => 17, 54 => 18, 55 => 19,
        56 => 20, 57 => 21, 58 => 36, 59 => 71,
        60 => 92, 61 => 22, 62 => 83, 63 => 78,
        64 => 86, 65 => 23, 66 => 37, 67 => 38,
        68 => 39, 69 => 40, 70 => 41, 71 => 42,
        72 => 43, 73 => 44, 74 => 45, 75 => 46,
        76 => 47, 77 => 48, 78 => 49, 79 => 50,
        80 => 51, 81 => 52, 82 => 53, 83 => 54,
        84 => 55, 85 => 56, 86 => 57, 87 => 58,
        88 => 72, 89 => 59, 90 => 73, 91 => 87,
        92 => 95, 93 => 88, 94 => 90, 95 => 24,
        96 => 93, 97 => 3, 98 => 25, 99 => 4,
        100 => 26, 101 => 5, 102 => 27, 103 => 28,
        104 => 29, 105 => 6, 106 => 60, 107 => 61,
        108 => 30, 109 => 31, 110 => 32, 111 => 7,
        112 => 33, 113 => 62, 114 => 34, 115 => 8,
        116 => 9, 117 => 35, 118 => 63, 119 => 64,
        120 => 65, 121 => 66, 122 => 67, 123 => 94,
        124 => 81, 125 => 91, 126 => 89, 127 => 250,
        128 => 98, 129 => 119, 130 => 99, 131 => 100,
        132 => 120, 133 => 121, 134 => 122, 135 => 146,
        136 => 123, 137 => 147, 138 => 148, 139 => 149,
        140 => 150, 141 => 151, 142 => 175, 143 => 152,
        144 => 176, 145 => 177, 146 => 124, 147 => 153,
        148 => 178, 149 => 154, 150 => 155, 151 => 156,
        152 => 157, 153 => 106, 154 => 125, 155 => 158,
        156 => 126, 157 => 159, 158 => 160, 159 => 179,
        160 => 127, 161 => 107, 162 => 101, 163 => 128,
        164 => 129, 165 => 161, 166 => 162, 167 => 108,
        168 => 163, 169 => 130, 170 => 131, 171 => 180,
        172 => 109, 173 => 132, 174 => 164, 175 => 165,
        176 => 110, 177 => 111, 178 => 133, 179 => 112,
        180 => 166, 181 => 134, 182 => 167, 183 => 168,
        184 => 102, 185 => 135, 186 => 136, 187 => 137,
        188 => 169, 189 => 138, 190 => 139, 191 => 170,
        192 => 190, 193 => 191, 194 => 103, 195 => 96,
        196 => 140, 197 => 171, 198 => 141, 199 => 186,
        200 => 192, 201 => 193, 202 => 194, 203 => 205,
        204 => 206, 205 => 195, 206 => 181, 207 => 187,
        208 => 97, 209 => 113, 210 => 196, 211 => 207,
        212 => 208, 213 => 197, 214 => 209, 215 => 182,
        216 => 114, 217 => 115, 218 => 198, 219 => 199,
        220 => 251, 221 => 210, 222 => 211, 223 => 212,
        224 => 104, 225 => 183, 226 => 105, 227 => 116,
        228 => 142, 229 => 117, 230 => 118, 231 => 172,
        232 => 143, 233 => 144, 234 => 188, 235 => 189,
        236 => 184, 237 => 185, 238 => 200, 239 => 173,
        240 => 201, 241 => 213, 242 => 202, 243 => 203,
        244 => 214, 245 => 215, 246 => 216, 247 => 217,
        248 => 218, 249 => 252, 250 => 219, 251 => 220,
        252 => 221, 253 => 222, 254 => 223,
        _ => 204,
    }
}

pub fn symbol_of(rank: u16) -> (r: u8)
    ensures
        r == symbol(rank),
{
    match rank {
        0 => 48, 1 => 49, 2 => 50, 3 => 97,
        4 => 99, 5 => 101, 6 => 105, 7 => 111,
        8 => 115, 9 => 116, 10 => 32, 11 => 37,
        12 => 45, 13 => 46, 14 => 47, 15 => 51,
        16 => 52, 17 => 53, 18 => 54, 19 => 55,
        20 => 56, 21 => 57, 22 => 61, 23 => 65,
        24 => 95, 25 => 98, 26 => 100, 27 => 102,
        28 => 103, 29 => 104, 30 => 108, 31 => 109,
        32 => 110, 33 => 112, 34 => 114, 35 => 117,
        36 => 58, 37 => 66, 38 => 67, 39 => 68,
        40 => 69, 41 => 70, 42 => 71, 43 => 72,
        44 => 73, 45 => 74, 46 => 75, 47 => 76,
        48 => 77, 49 => 78, 50 => 79, 51 => 80,
        52 => 81, 53 => 82, 54 => 83, 55 => 84,
        56 => 85, 57 => 86, 58 => 87, 59 => 89,
        60 => 106, 61 => 107, 62 => 113, 63 => 118,
        64 => 119, 65 => 120, 66 => 121, 67 => 122,
        68 => 38, 69 => 42, 70 => 44, 71 => 59,
        72 => 88, 73 => 90, 74 => 33, 75 => 34,
        76 => 40, 77 => 41, 78 => 63, 79 => 39,
        80 => 43, 81 => 124, 82 => 35, 83 => 62,
        84 => 0, 85 => 36, 86 => 64, 87 => 91,
        88 => 93, 89 => 126, 90 => 94, 91 => 125,
        92 => 60, 93 => 96, 94 => 123, 95 => 92,
        96 => 195, 97 => 208, 98 => 128, 99 => 130,
        100 => 131, 101 => 162, 102 => 184, 103 => 194,
        104 => 224, 105 => 226, 106 => 153, 107 => 161,
        108 => 167, 109 => 172, 110 => 176, 111 => 177,
        112 => 179, 113 => 209, 114 => 216, 115 => 217,
        116 => 227, 117 => 229, 118 => 230, 119 => 129,
        120 => 132, 121 => 133, 122 => 134, 123 => 136,
        124 => 146, 125 => 154, 126 => 156, 127 => 160,
        128 => 163, 129 => 164, 130 => 169, 131 => 170,
        132 => 173, 133 => 178, 134 => 181, 135 => 185,
        136 => 186, 137 => 187, 138 => 189, 139 => 190,
        140 => 196, 141 => 198, 142 => 228, 143 => 232,
        144 => 233, 145 => 1, 146 => 135, 147 => 137,
        148 => 138, 149 => 139, 150 => 140, 151 => 141,
        152 => 143, 153 => 147, 154 => 149, 155 => 150,
        156 => 151, 157 => 152, 158 => 155, 159 => 157,
        160 => 158, 161 => 165, 162 => 166, 163 => 168,
        164 => 174, 165 => 175, 166 => 180, 167 => 182,
        168 => 183, 169 => 188, 170 => 191, 171 => 197,
        172 => 231, 173 => 239, 174 => 9, 175 => 142,
        176 => 144, 177 => 145, 178 => 148, 179 => 159,
        180 => 171, 181 => 206, 182 => 215, 183 => 225,
        184 => 236, 185 => 237, 186 => 199, 187 => 207,
        188 => 234, 189 => 235, 190 => 192, 191 => 193,
        192 => 200, 193 => 201, 194 => 202, 195 => 205,
        196 => 210, 197 => 213, 198 => 218, 199 => 219,
        200 => 238, 201 => 240, 202 => 242, 203 => 243,
        204 => 255, 205 => 203, 206 => 204, 207 => 211,
        208 => 212, 209 => 214, 210 => 221, 211 => 222,
        212 => 223, 213 => 241, 214 => 244, 215 => 245,
        216 => 246, 217 => 247, 218 => 248, 219 => 250,
        220 => 251, 221 => 252, 222 => 253, 223 => 254,
        224 => 2, 225 => 3, 226 => 4, 227 => 5,
        228 => 6, 229 => 7, 230 => 8, 231 => 11,
        232 => 12, 233 => 14, 234 => 15, 235 => 16,
        236 => 17, 237 => 18, 238 => 19, 239 => 20,
        240 => 21, 241 => 23, 242 => 24, 243 => 25,
        244 => 26, 245 => 27, 246 => 28, 247 => 29,
        248 => 30, 249 => 31, 250 => 127, 251 => 220,
        252 => 249, 253 => 10, 254 => 13,
        _ => 22,
    }
}

pub fn limit_of(len: u32) -> (r: u32)
    ensures
        r == limit(len),
{
    match len {
        5 => 10,
        6 => 46,
        7 => 124,
        8 => 254,
        9 => 508,
        10 => 1021,
        11 => 2045,
        12 => 4092,
        13 => 8190,
        14 => 16382,
        15 => 32767,
        16 => 65534,
        17 => 131068,
        18 => 262136,
        19 => 524275,
        20 => 1048558,
        21 => 2097129,
        22 => 4194284,
        23 => 8388597,
        24 => 16777206,
        25 => 33554416,
        26 => 67108847,
        27 => 134217713,
        28 => 268435455,
        29 => 536870910,
        30 => 1073741824,
        _ => 0,
    }
}

pub fn base_of(len: u32) -> (r: u32)
    ensures
        r == base(len),
{
    match len {
        6 => 10,
        7 => 36,
        8 => 68,
        9 => 74,
        10 => 74,
        11 => 79,
        12 => 82,
        13 => 84,
        14 => 90,
        15 => 92,
        16 => 95,
        17 => 95,
        18 => 95,
        19 => 95,
        20 => 98,
        21 => 106,
        22 => 119,
        23 => 145,
        24 => 174,
        25 => 186,
        26 => 190,
        27 => 205,
        28 => 224,
        29 => 253,
        30 => 253,
        31 => 257,
        _ => 0,
    }
}

pub fn code_len_of(rank: u16) -> (r: u32)
    ensures
        r == code_len(rank),
{
    if rank < 10 {
        5
    } else if rank < 36 {
        6
    } else if rank < 68 {
        7
    } else if rank < 74 {
        8
    } else if rank < 79 {
        10
    } else if rank < 82 {
        11
    } else if rank < 84 {
        12
    } else if rank < 90 {
        13
    } else if rank < 92 {
        14
    } else if rank < 95 {
        15
    } else if rank < 98 {
        19
    } else if rank < 106 {
        20
    } else if rank < 119 {
        21
    } else if rank < 145 {
        22
    } else if rank < 174 {
        23
    } else if rank < 186 {
        24
    } else if rank < 190 {
        25
    } else if rank < 205 {
        26
    } else if rank < 224 {
        27
    } else if rank < 253 {
        28
    } else {
        30
    }
}

/// Every symbol has a rank of its own.
pub proof fn rank_inverse(sym: u8)
    ensures
        rank(sym) < EOS_RANK,
        symbol(rank(sym)) == sym,
{
    assert(rank(sym) < 256 && symbol(rank(sym)) == sym) by (bit_vector);
}

/// The code words of one length are numbers of that length, and the limits grow.
pub proof fn limit_bounds(len: u32)
    requires
        1 <= len <= MAX_CODE_LEN,
    ensures
        first(len) == 2 * limit((len - 1) as u32),
        first(len) <= limit(len),
        limit(len) - first(len) == base((len + 1) as u32) - base(len),
        limit(len) <= 0x4000_0000,
        base((len + 1) as u32) <= 257,
{
}

/// A rank lies among those of its code length.
pub proof fn code_len_bounds(r: u16)
    requires
        r <= EOS_RANK,
    ensures
        5 <= code_len(r) <= MAX_CODE_LEN,
        base(code_len(r)) <= r < base((code_len(r) + 1) as u32),
{
}

#[verifier::rlimit(50)]
proof fn neighbours_ascend(r: u16)
    requires
        r < 255,
        code_len(r) == code_len((r + 1) as u16),
    ensures
        symbol(r) < symbol((r + 1) as u16),
{
}

proof fn symbols_ascend(i: u16, j: u16)
    requires
        i < j < 256,
        code_len(i) == code_len(j),
    ensures
        symbol(i) < symbol(j),
    decreases j - i,
{
    let h = (j - 1) as u16;
    neighbours_ascend(h);
    if i < h {
        symbols_ascend(i, h);
    }
}

/// The code is canonical: of two symbols whose code words are equally long, the smaller
/// one has the smaller code word.
pub proof fn code_is_canonical(a: u8, b: u8)
    requires
        a < b,
        code_len(rank(a)) == code_len(rank(b)),
    ensures
        rank(a) < rank(b),
{
    rank_inverse(a);
    rank_inverse(b);
    if rank(b) < rank(a) {
        symbols_ascend(rank(b), rank(a));
    }
}

/// The code is complete: the code words of all lengths, with the one that ends a string,
/// use up all numbers of the greatest length.
pub proof fn code_is_complete()
    ensures
        limit(MAX_CODE_LEN) == 0x4000_0000,
        base((MAX_CODE_LEN + 1) as u32) == EOS_RANK + 1,
        limit(4) == 0,
        base(5) == 0,
{
}

/// The ten shortest code words belong to the digits 0, 1 and 2 and to the letters a, c, e,
/// i, o, s and t. Printable characters have at most 15 bits, but for the backslash.
pub proof fn common_symbols_are_short(sym: u8)
    ensures
        code_len(rank(sym)) == 5 <==> (0x30 <= sym <= 0x32 || sym == 0x61 || sym == 0x63 || sym
            == 0x65 || sym == 0x69 || sym == 0x6f || sym == 0x73 || sym == 0x74),
        0x20 <= sym < 0x7f && sym != 0x5c ==> code_len(rank(sym)) <= 15,
        0x61 <= sym <= 0x7a || 0x30 <= sym <= 0x39 ==> code_len(rank(sym)) <= 7,
        !(0x20 <= sym < 0x7f && sym != 0x5c) ==> code_len(rank(sym)) >= 13,
{
    assert(code_len(rank(sym)) == 5 <==> (0x30 <= sym <= 0x32 || sym == 0x61 || sym == 0x63 || sym
        == 0x65 || sym == 0x69 || sym == 0x6f || sym == 0x73 || sym == 0x74)) by (bit_vector);
    assert((0x20 <= sym && sym < 0x7f && sym != 0x5c) ==> code_len(rank(sym)) <= 15)
        by (bit_vector);
    assert(((0x61 <= sym && sym <= 0x7a) || (0x30 <= sym && sym <= 0x39)) ==> code_len(rank(sym))
        <= 7) by (bit_vector);
    assert(!(0x20 <= sym && sym < 0x7f && sym != 0x5c) ==> code_len(rank(sym)) >= 13)
        by (bit_vector);
}

} // verus!
