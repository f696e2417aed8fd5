//! The fixed parameters of the permutation: the mixing matrix, the round
//! constants, the radices of the decomposition with their inverses, and the
//! digits of the largest field element.
//!
//! Field elements are written as the four little-endian limbs of their
//! Montgomery form; [`Scalar`] gives them their meaning.

use crate::field::{modulus, montgomery_radix_inverse, Scalar};
use vstd::prelude::*;

pub mod sbox;

verus! {

/// Number of digits of a decomposition.
pub const DECOMPOSITION_LEN: usize = 27;

/// 2 in Montgomery form.
pub const MONTGOMERY_TWO: [u64; 4] = [17179869180, 12756850513266774020, 3681868479150465002, 3479420709561305823];

/// 3 in Montgomery form.
pub const MONTGOMERY_THREE: [u64; 4] = [25769803770, 688531696190609414, 14746174755580473312, 5219131064341958734];

/// 4 in Montgomery form.
pub const MONTGOMERY_FOUR: [u64; 4] = [34359738360, 7066956952823996424, 7363736958300930005, 6958841419122611646];

/// The mixing matrix `circ(2, 1, 1)`, row by row.
pub const MATRIX_BLS: [[[u64; 4]; 3]; 3] = [
    [
        [17179869180, 12756850513266774020, 3681868479150465002, 3479420709561305823],
        [8589934590, 6378425256633387010, 11064306276430008309, 1739710354780652911],
        [8589934590, 6378425256633387010, 11064306276430008309, 1739710354780652911],
    ],
    [
        [8589934590, 6378425256633387010, 11064306276430008309, 1739710354780652911],
        [17179869180, 12756850513266774020, 3681868479150465002, 3479420709561305823],
        [8589934590, 6378425256633387010, 11064306276430008309, 1739710354780652911],
    ],
    [
        [8589934590, 6378425256633387010, 11064306276430008309, 1739710354780652911],
        [8589934590, 6378425256633387010, 11064306276430008309, 1739710354780652911],
        [17179869180, 12756850513266774020, 3681868479150465002, 3479420709561305823],
    ],
];

/// The constants that the six rounds add, round by round.
pub const CONSTANTS_BLS: [[[u64; 4]; 3]; 6] = [
    [
        [15103436521110050711, 7331784790172381998, 12044656176741403427, 3751008647294553039],
        [11347474211269653648, 4128803420964107347, 6214707797160115797, 4112634405610528689],
        [17304014358209917584, 2208272603974818668, 10268468444210955228, 6179877239278854801],
    ],
    [
        [16534261342164866333, 6832202303744756170, 1684251025634136077, 8163602255652314233],
        [16811572141480885768, 6086740446641139821, 2480905392383068776, 1165134175098904372],
        [17107702180119466287, 4822673964486880457, 9690930597399869386, 5205372976176261225],
    ],
    [
        [774652113136442555, 16405992112841771651, 6017565519437953844, 4505701757988831749],
        [4237652715300724594, 7969055898639970355, 5598934159073726045, 6898001257326269053],
        [2313248965582223868, 13576718295572789794, 11585600013457612589, 5850954271136432218],
    ],
    [
        [12954206658231352586, 4453253639687023763, 9511288471238421433, 6024650399278547742],
        [4371526775444718771, 17735767830574081080, 13237695147841645604, 4831541254639807973],
        [14891113154929442632, 3849496164829441429, 2848154445163346576, 2914992698027003878],
    ],
    [
        [1812640294639214912, 12716517994398543712, 11407848676021953699, 6712449845925535010],
        [12331354760301169072, 16276070422768526146, 7003893990016485254, 2216263948209348584],
        [12276154328438218111, 16836562938552946063, 6260598915119486614, 3428279404074293598],
    ],
    [
        [6587846275791075816, 7625938549621093986, 13183807980954838340, 5783004187723978816],
        [9734329294999961329, 15789237201575454651, 10454603626512543203, 5651214051507175958],
        [18253729846641067784, 12726484722006391827, 14165217671517419137, 7711433387056390051],
    ],
];

/// The radices of the decomposition, least significant first.
pub const DECOMPOSITION_S_I: [u64; 27] = [
    693, 696, 694, 668, 679, 695, 691, 693, 700,
    688, 700, 694, 701, 694, 699, 701, 701, 701,
    695, 698, 697, 703, 702, 691, 688, 703, 679,
];

/// The radices in Montgomery form.
pub const S_I_DECOMPOSITION_MONTGOMERY: [[u64; 4]; 27] = [
    [6571299961350, 9554885865219436026, 15585515709981716521, 2712848100111761021],
    [6597069765120, 10243417561410045440, 11884946391852638217, 7931979164453719756],
    [6579889895940, 15933311121852823036, 8203077912702173214, 4452558454892413933],
    [6335076760125, 9392260008042033603, 15688370324364089678, 987673527917684992],
    [6438155975205, 12146386792804471259, 886093051847776462, 3417453711575968316],
    [6588479830530, 3864992304776658430, 820640115422629908, 6192268809673066845],
    [6549825124875, 2832194760490744309, 15594866129471023172, 7586944250014904550],
    [6571299961350, 9554885865219436026, 15585515709981716521, 2712848100111761021],
    [6635724470775, 11276215105695959561, 15557464451513796569, 6537303724111882050],
    [6524055321105, 2143663064300134895, 848691373890549860, 2367813185672945816],
    [6635724470775, 11276215105695959561, 15557464451513796569, 6537303724111882050],
    [6579889895940, 15933311121852823036, 8203077912702173214, 4452558454892413933],
    [6644314405365, 17654640362329346571, 8175026654234253262, 8277014078892534962],
    [6579889895940, 15933311121852823036, 8203077912702173214, 4452558454892413933],
    [6627134536185, 4897789849062572551, 4493158175083788260, 4797593369331229139],
    [6644314405365, 17654640362329346571, 8175026654234253262, 8277014078892534962],
    [6644314405365, 17654640362329346571, 8175026654234253262, 8277014078892534962],
    [6644314405365, 17654640362329346571, 8175026654234253262, 8277014078892534962],
    [6588479830530, 3864992304776658430, 820640115422629908, 6192268809673066845],
    [6618544601595, 16966108666138737157, 11875595972363331566, 3057883014550576227],
    [6609954667005, 10587683409505350147, 811289695933323257, 1318172659769923316],
    [6665789241840, 5930587393348486672, 8165676234744946612, 3402917928989391433],
    [6657199307250, 17998906210424651278, 15548114032024489918, 1663207574208738521],
    [6549825124875, 2832194760490744309, 15594866129471023172, 7586944250014904550],
    [6524055321105, 2143663064300134895, 848691373890549860, 2367813185672945816],
    [6665789241840, 5930587393348486672, 8165676234744946612, 3402917928989391433],
    [6438155975205, 12146386792804471259, 886093051847776462, 3417453711575968316],
];

/// The inverses of the radices in the field, in Montgomery form.
pub const INVERSES_S_I: [[u64; 4]; 27] = [
    [10221572469640980478, 9996602938199176322, 12629687422955549043, 8006457294428823986],
    [2544378491691269391, 4278332345953639965, 11874303680749211767, 2426939821791091123],
    [744249036390430597, 12703574479313007857, 12941063472551889101, 7898626469976166322],
    [12813307260754568983, 13401737678607148669, 16259656273855951252, 77635945376597827],
    [5868183680725469139, 13963385237577580741, 2771541177262918091, 2057109021922450213],
    [12076645397819930386, 3513102646780106621, 5511421539288173570, 5771838565320455168],
    [6887496337358022873, 10595820730184048433, 5009316404333812521, 5382134171948568183],
    [10221572469640980478, 9996602938199176322, 12629687422955549043, 8006457294428823986],
    [4216398644020393879, 8184599923631624209, 8370160424198379966, 2747212268616577148],
    [9008875010444565957, 5372543878254038396, 4977331236853060682, 4494972308657887955],
    [4216398644020393879, 8184599923631624209, 8370160424198379966, 2747212268616577148],
    [744249036390430597, 12703574479313007857, 12941063472551889101, 7898626469976166322],
    [14604768842820473715, 14849596265064785286, 7748405401081812358, 5829685384640365743],
    [744249036390430597, 12703574479313007857, 12941063472551889101, 7898626469976166322],
    [158341149692136564, 11915096076612138202, 992774181608407826, 2273115756299035808],
    [14604768842820473715, 14849596265064785286, 7748405401081812358, 5829685384640365743],
    [14604768842820473715, 14849596265064785286, 7748405401081812358, 5829685384640365743],
    [14604768842820473715, 14849596265064785286, 7748405401081812358, 5829685384640365743],
    [12076645397819930386, 3513102646780106621, 5511421539288173570, 5771838565320455168],
    [14693968055083782227, 11284659261154016671, 1375836735433574310, 7087423626300479469],
    [8098570567349679003, 8435273170816927395, 2562595664368193229, 3130570460078912387],
    [9026571779888472938, 4361001158901360622, 8564805700575463153, 287658769533324946],
    [15293454485951598931, 15506724579931865072, 2628833535283587331, 4905112046230959809],
    [6887496337358022873, 10595820730184048433, 5009316404333812521, 5382134171948568183],
    [9008875010444565957, 5372543878254038396, 4977331236853060682, 4494972308657887955],
    [9026571779888472938, 4361001158901360622, 8564805700575463153, 287658769533324946],
    [5868183680725469139, 13963385237577580741, 2771541177262918091, 2057109021922450213],
];

/// The digits of `p - 1`, least significant first.
pub const BLS_SCALAR_REAL: [u64; 27] = [
    660, 660, 673, 663, 674, 682, 687, 683, 669,
    684, 672, 666, 680, 662, 686, 668, 661, 678,
    692, 686, 689, 660, 690, 687, 683, 674, 678,
];

/// The radix of digit `k`.
pub open spec fn radix_at(k: int) -> nat {
    DECOMPOSITION_S_I[k] as nat
}

/// The entry of the mixing matrix in row `i` and column `j`.
pub open spec fn matrix_at(i: int, j: int) -> nat {
    if i == j {
        2
    } else {
        1
    }
}

/// The constant that round `round` adds to coordinate `i`.
pub open spec fn round_constant_at(round: int, i: int) -> nat {
    Scalar(CONSTANTS_BLS[round][i]).value()
}

/// Every radix lies between 668 and 703.
pub proof fn lemma_radix_range(k: int)
    requires
        0 <= k < 27,
    ensures
        668 <= radix_at(k) <= 703,
{
}

/// The inverses of the radices, and their Montgomery forms.
proof fn lemma_inverse_numbers()
    ensures
        (50257346977158519903056241271901583394522966435807989614145858071237018576894nat * 12549076656233958353659347336803947287922716146853412054870763148006372261952nat) % 52435875175126190479447740508185965837690552500527637822603658699938581184513nat == 4918227830278791314811115632080934746680932052719042508613618781379520601722nat,
        (693nat * 4918227830278791314811115632080934746680932052719042508613618781379520601722nat) % 52435875175126190479447740508185965837690552500527637822603658699938581184513nat == 1,
        (15234148167043899843840688342882013039355431730993057655977283511487973227791nat * 12549076656233958353659347336803947287922716146853412054870763148006372261952nat) % 52435875175126190479447740508185965837690552500527637822603658699938581184513nat == 10773462859257248905978486914756599302858834780999212943437245968521863662910nat,
        (696nat * 10773462859257248905978486914756599302858834780999212943437245968521863662910nat) % 52435875175126190479447740508185965837690552500527637822603658699938581184513nat == 1,
        (49580481921858565949542353425594106002453733890505354034614193622143725107077nat * 12549076656233958353659347336803947287922716146853412054870763148006372261952nat) % 52435875175126190479447740508185965837690552500527637822603658699938581184513nat == 43898045355545124882650053653106694743080995681277460482611996692599878484441nat,
        (694nat * 43898045355545124882650053653106694743080995681277460482611996692599878484441nat) % 52435875175126190479447740508185965837690552500527637822603658699938581184513nat == 1,
        (487328727451827780451140639283580495814419453095435801392024279652196787991nat * 12549076656233958353659347336803947287922716146853412054870763148006372261952nat) % 52435875175126190479447740508185965837690552500527637822603658699938581184513nat == 3689350498848699030739586532761587416723736478330537391710137663019630712084nat,
        (668nat * 3689350498848699030739586532761587416723736478330537391710137663019630712084nat) % 52435875175126190479447740508185965837690552500527637822603658699938581184513nat == 1,
        (12912682611389009756306992884918074036925200511417821509232785374812634793939nat * 12549076656233958353659347336803947287922716146853412054870763148006372261952nat) % 52435875175126190479447740508185965837690552500527637822603658699938581184513nat == 11506546982465099236285292099734475566739163950778524352824661482018922822522nat,
        (679nat * 11506546982465099236285292099734475566739163950778524352824661482018922822522nat) % 52435875175126190479447740508185965837690552500527637822603658699938581184513nat == 1,
        (36230417874744798913092936615714502990315617381176764666538138766300079044370nat * 12549076656233958353659347336803947287922716146853412054870763148006372261952nat) % 52435875175126190479447740508185965837690552500527637822603658699938581184513nat == 46626432889536670095393818178502053075816922942915223272473469174909414636013nat,
        (695nat * 46626432889536670095393818178502053075816922942915223272473469174909414636013nat) % 52435875175126190479447740508185965837690552500527637822603658699938581184513nat == 1,
        (33784203750822313426655455904681723261867126978870309868962197377830252669145nat * 12549076656233958353659347336803947287922716146853412054870763148006372261952nat) % 52435875175126190479447740508185965837690552500527637822603658699938581184513nat == 52056454949546406177859840793944388660862111454937712802179609071140183346709nat,
        (691nat * 52056454949546406177859840793944388660862111454937712802179609071140183346709nat) % 52435875175126190479447740508185965837690552500527637822603658699938581184513nat == 1,
        (17244530898808696606768079744107268741209594221122774267990131096562728056727nat * 12549076656233958353659347336803947287922716146853412054870763148006372261952nat) % 52435875175126190479447740508185965837690552500527637822603658699938581184513nat == 1722893041468431972896140045268967448952689582160193814171263071569410524634nat,
        (700nat * 1722893041468431972896140045268967448952689582160193814171263071569410524634nat) % 52435875175126190479447740508185965837690552500527637822603658699938581184513nat == 1,
        (28215398479191503331192353912821400197853769338459028027263959281373998554565nat * 12549076656233958353659347336803947287922716146853412054870763148006372261952nat) % 52435875175126190479447740508185965837690552500527637822603658699938581184513nat == 27970881089057139398193780183872455614000629022810527733859800498368400137669nat,
        (688nat * 27970881089057139398193780183872455614000629022810527733859800498368400137669nat) % 52435875175126190479447740508185965837690552500527637822603658699938581184513nat == 1,
        (36593528244684409356511584325956138760069285381487304113619742326502142890867nat * 12549076656233958353659347336803947287922716146853412054870763148006372261952nat) % 52435875175126190479447740508185965837690552500527637822603658699938581184513nat == 48995004621551575982936191202370624284860644633160631631676742437175136484816nat,
        (701nat * 48995004621551575982936191202370624284860644633160631631676742437175136484816nat) % 52435875175126190479447740508185965837690552500527637822603658699938581184513nat == 1,
        (14268578858599484986494629757578897690041622109820939162645129355645731605620nat * 12549076656233958353659347336803947287922716146853412054870763148006372261952nat) % 52435875175126190479447740508185965837690552500527637822603658699938581184513nat == 14327971614376398256902029237572989234619306906438882437936049802129140209216nat,
        (699nat * 14327971614376398256902029237572989234619306906438882437936049802129140209216nat) % 52435875175126190479447740508185965837690552500527637822603658699938581184513nat == 1,
        (44488479144071301688105641668822933742250280744952645958990854179042515800147nat * 12549076656233958353659347336803947287922716146853412054870763148006372261952nat) % 52435875175126190479447740508185965837690552500527637822603658699938581184513nat == 45900171535819630921121159671205766657348033779115167205746182615562282383578nat,
        (698nat * 45900171535819630921121159671205766657348033779115167205746182615562282383578nat) % 52435875175126190479447740508185965837690552500527637822603658699938581184513nat == 1,
        (19650909267711620558967770124288167948084825082212767231124541158238171673499nat * 12549076656233958353659347336803947287922716146853412054870763148006372261952nat) % 52435875175126190479447740508185965837690552500527637822603658699938581184513nat == 15648008660582851678228307067005281053428457561133068388954893844457998402265nat,
        (697nat * 15648008660582851678228307067005281053428457561133068388954893844457998402265nat) % 52435875175126190479447740508185965837690552500527637822603658699938581184513nat == 1,
        (1805663361436831274497043067124863664697670184462658031488958855485863322474nat * 12549076656233958353659347336803947287922716146853412054870763148006372261952nat) % 52435875175126190479447740508185965837690552500527637822603658699938581184513nat == 19766012690481423153703629067808365500694162749132039862005646593860204856182nat,
        (703nat * 19766012690481423153703629067808365500694162749132039862005646593860204856182nat) % 52435875175126190479447740508185965837690552500527637822603658699938581184513nat == 1,
        (30789887337662470501420433893682242024652986481313350528927290101115002016083nat * 12549076656233958353659347336803947287922716146853412054870763148006372261952nat) % 52435875175126190479447740508185965837690552500527637822603658699938581184513nat == 18300269826076804369607829664537837080105677154742551661734895130320445000293nat,
        (702nat * 18300269826076804369607829664537837080105677154742551661734895130320445000293nat) % 52435875175126190479447740508185965837690552500527637822603658699938581184513nat == 1,
{
}

/// Each radix, multiplied by the entry of the inverse table at the same
/// position, gives one in the field.
pub proof fn lemma_radix_inverse(k: int)
    requires
        0 <= k < 27,
    ensures
        Scalar(INVERSES_S_I[k]).wf(),
        (radix_at(k) * Scalar(INVERSES_S_I[k]).value()) % modulus() == 1,
{
    lemma_inverse_numbers();
    if k == 0 {
        assert(Scalar(INVERSES_S_I[0]).raw() == 50257346977158519903056241271901583394522966435807989614145858071237018576894nat);
        assert(Scalar(INVERSES_S_I[0]).value() == 4918227830278791314811115632080934746680932052719042508613618781379520601722nat);
    } else if k == 1 {
        assert(Scalar(INVERSES_S_I[1]).raw() == 15234148167043899843840688342882013039355431730993057655977283511487973227791nat);
        assert(Scalar(INVERSES_S_I[1]).value() == 10773462859257248905978486914756599302858834780999212943437245968521863662910nat);
    } else if k == 2 {
        assert(Scalar(INVERSES_S_I[2]).raw() == 49580481921858565949542353425594106002453733890505354034614193622143725107077nat);
        assert(Scalar(INVERSES_S_I[2]).value() == 43898045355545124882650053653106694743080995681277460482611996692599878484441nat);
    } else if k == 3 {
        assert(Scalar(INVERSES_S_I[3]).raw() == 487328727451827780451140639283580495814419453095435801392024279652196787991nat);
        assert(Scalar(INVERSES_S_I[3]).value() == 3689350498848699030739586532761587416723736478330537391710137663019630712084nat);
    } else if k == 4 {
        assert(Scalar(INVERSES_S_I[4]).raw() == 12912682611389009756306992884918074036925200511417821509232785374812634793939nat);
        assert(Scalar(INVERSES_S_I[4]).value() == 11506546982465099236285292099734475566739163950778524352824661482018922822522nat);
    } else if k == 5 {
        assert(Scalar(INVERSES_S_I[5]).raw() == 36230417874744798913092936615714502990315617381176764666538138766300079044370nat);
        assert(Scalar(INVERSES_S_I[5]).value() == 46626432889536670095393818178502053075816922942915223272473469174909414636013nat);
    } else if k == 6 {
        assert(Scalar(INVERSES_S_I[6]).raw() == 33784203750822313426655455904681723261867126978870309868962197377830252669145nat);
        assert(Scalar(INVERSES_S_I[6]).value() == 52056454949546406177859840793944388660862111454937712802179609071140183346709nat);
    } else if k == 7 {
        assert(Scalar(INVERSES_S_I[7]).raw() == 50257346977158519903056241271901583394522966435807989614145858071237018576894nat);
        assert(Scalar(INVERSES_S_I[7]).value() == 4918227830278791314811115632080934746680932052719042508613618781379520601722nat);
    } else if k == 8 {
        assert(Scalar(INVERSES_S_I[8]).raw() == 17244530898808696606768079744107268741209594221122774267990131096562728056727nat);
        assert(Scalar(INVERSES_S_I[8]).value() == 1722893041468431972896140045268967448952689582160193814171263071569410524634nat);
    } else if k == 9 {
        assert(Scalar(INVERSES_S_I[9]).raw() == 28215398479191503331192353912821400197853769338459028027263959281373998554565nat);
        assert(Scalar(INVERSES_S_I[9]).value() == 27970881089057139398193780183872455614000629022810527733859800498368400137669nat);
    } else if k == 10 {
        assert(Scalar(INVERSES_S_I[10]).raw() == 17244530898808696606768079744107268741209594221122774267990131096562728056727nat);
        assert(Scalar(INVERSES_S_I[10]).value() == 1722893041468431972896140045268967448952689582160193814171263071569410524634nat);
    } else if k == 11 {
        assert(Scalar(INVERSES_S_I[11]).raw() == 49580481921858565949542353425594106002453733890505354034614193622143725107077nat);
        assert(Scalar(INVERSES_S_I[11]).value() == 43898045355545124882650053653106694743080995681277460482611996692599878484441nat);
    } else if k == 12 {
        assert(Scalar(INVERSES_S_I[12]).raw() == 36593528244684409356511584325956138760069285381487304113619742326502142890867nat);
        assert(Scalar(INVERSES_S_I[12]).value() == 48995004621551575982936191202370624284860644633160631631676742437175136484816nat);
    } else if k == 13 {
        assert(Scalar(INVERSES_S_I[13]).raw() == 49580481921858565949542353425594106002453733890505354034614193622143725107077nat);
        assert(Scalar(INVERSES_S_I[13]).value() == 43898045355545124882650053653106694743080995681277460482611996692599878484441nat);
    } else if k == 14 {
        assert(Scalar(INVERSES_S_I[14]).raw() == 14268578858599484986494629757578897690041622109820939162645129355645731605620nat);
        assert(Scalar(INVERSES_S_I[14]).value() == 14327971614376398256902029237572989234619306906438882437936049802129140209216nat);
    } else if k == 15 {
        assert(Scalar(INVERSES_S_I[15]).raw() == 36593528244684409356511584325956138760069285381487304113619742326502142890867nat);
        assert(Scalar(INVERSES_S_I[15]).value() == 48995004621551575982936191202370624284860644633160631631676742437175136484816nat);
    } else if k == 16 {
        assert(Scalar(INVERSES_S_I[16]).raw() == 36593528244684409356511584325956138760069285381487304113619742326502142890867nat);
        assert(Scalar(INVERSES_S_I[16]).value() == 48995004621551575982936191202370624284860644633160631631676742437175136484816nat);
    } else if k == 17 {
        assert(Scalar(INVERSES_S_I[17]).raw() == 36593528244684409356511584325956138760069285381487304113619742326502142890867nat);
        assert(Scalar(INVERSES_S_I[17]).value() == 48995004621551575982936191202370624284860644633160631631676742437175136484816nat);
    } else if k == 18 {
        assert(Scalar(INVERSES_S_I[18]).raw() == 36230417874744798913092936615714502990315617381176764666538138766300079044370nat);
        assert(Scalar(INVERSES_S_I[18]).value() == 46626432889536670095393818178502053075816922942915223272473469174909414636013nat);
    } else if k == 19 {
        assert(Scalar(INVERSES_S_I[19]).raw() == 44488479144071301688105641668822933742250280744952645958990854179042515800147nat);
        assert(Scalar(INVERSES_S_I[19]).value() == 45900171535819630921121159671205766657348033779115167205746182615562282383578nat);
    } else if k == 20 {
        assert(Scalar(INVERSES_S_I[20]).raw() == 19650909267711620558967770124288167948084825082212767231124541158238171673499nat);
        assert(Scalar(INVERSES_S_I[20]).value() == 15648008660582851678228307067005281053428457561133068388954893844457998402265nat);
    } else if k == 21 {
        assert(Scalar(INVERSES_S_I[21]).raw() == 1805663361436831274497043067124863664697670184462658031488958855485863322474nat);
        assert(Scalar(INVERSES_S_I[21]).value() == 19766012690481423153703629067808365500694162749132039862005646593860204856182nat);
    } else if k == 22 {
        assert(Scalar(INVERSES_S_I[22]).raw() == 30789887337662470501420433893682242024652986481313350528927290101115002016083nat);
        assert(Scalar(INVERSES_S_I[22]).value() == 18300269826076804369607829664537837080105677154742551661734895130320445000293nat);
    } else if k == 23 {
        assert(Scalar(INVERSES_S_I[23]).raw() == 33784203750822313426655455904681723261867126978870309868962197377830252669145nat);
        assert(Scalar(INVERSES_S_I[23]).value() == 52056454949546406177859840793944388660862111454937712802179609071140183346709nat);
    } else if k == 24 {
        assert(Scalar(INVERSES_S_I[24]).raw() == 28215398479191503331192353912821400197853769338459028027263959281373998554565nat);
        assert(Scalar(INVERSES_S_I[24]).value() == 27970881089057139398193780183872455614000629022810527733859800498368400137669nat);
    } else if k == 25 {
        assert(Scalar(INVERSES_S_I[25]).raw() == 1805663361436831274497043067124863664697670184462658031488958855485863322474nat);
        assert(Scalar(INVERSES_S_I[25]).value() == 19766012690481423153703629067808365500694162749132039862005646593860204856182nat);
    } else if k == 26 {
        assert(Scalar(INVERSES_S_I[26]).raw() == 12912682611389009756306992884918074036925200511417821509232785374812634793939nat);
        assert(Scalar(INVERSES_S_I[26]).value() == 11506546982465099236285292099734475566739163950778524352824661482018922822522nat);
    }
}

/// The Montgomery forms of the radices.
proof fn lemma_radix_montgomery_numbers()
    ensures
        (17028823517051994979649633496192410649554047481625010760507906577769628170758nat * 12549076656233958353659347336803947287922716146853412054870763148006372261952nat) % 52435875175126190479447740508185965837690552500527637822603658699938581184513nat == 693,
        (49789840178243438373676145473140339183220686475380875943258706401877529983488nat * 12549076656233958353659347336803947287922716146853412054870763148006372261952nat) % 52435875175126190479447740508185965837690552500527637822603658699938581184513nat == 696,
        (27949162404115809444325137488508386827442927146210299154758173185805595441668nat * 12549076656233958353659347336803947287922716146853412054870763148006372261952nat) % 52435875175126190479447740508185965837690552500527637822603658699938581184513nat == 694,
        (6199727216087585760000736229222835390784818369630990017269534876563352320573nat * 12549076656233958353659347336803947287922716146853412054870763148006372261952nat) % 52435875175126190479447740508185965837690552500527637822603658699938581184513nat == 668,
        (21451704623537163912535799128326641672181389679013886708815150165081829931557nat * 12549076656233958353659347336803947287922716146853412054870763148006372261952nat) % 52435875175126190479447740508185965837690552500527637822603658699938581184513nat == 679,
        (38869501291179623909000641480824363005331806810795587549008439793841562712578nat * 12549076656233958353659347336803947287922716146853412054870763148006372261952nat) % 52435875175126190479447740508185965837690552500527637822603658699938581184513nat == 695,
        (47624020918050556529746366019746424131466840652982071794611032061636274813451nat * 12549076656233958353659347336803947287922716146853412054870763148006372261952nat) % 52435875175126190479447740508185965837690552500527637822603658699938581184513nat == 691,
        (41035320551372505752930420934218278057085652633194391697656114134082817882615nat * 12549076656233958353659347336803947287922716146853412054870763148006372261952nat) % 52435875175126190479447740508185965837690552500527637822603658699938581184513nat == 700,
        (14863004256859113135719854042798495597800201659226206611860232237528373000721nat * 12549076656233958353659347336803947287922716146853412054870763148006372261952nat) % 52435875175126190479447740508185965837690552500527637822603658699938581184513nat == 688,
        (51955659438436320217605924926534254234974532297779680091906380742118785153525nat * 12549076656233958353659347336803947287922716146853412054870763148006372261952nat) % 52435875175126190479447740508185965837690552500527637822603658699938581184513nat == 701,
        (30114981664308691288254916941902301879196772968609103303405847526046850611705nat * 12549076656233958353659347336803947287922716146853412054870763148006372261952nat) % 52435875175126190479447740508185965837690552500527637822603658699938581184513nat == 699,
        (19194642777244876823579412949586325701307893304023814909155580918010883340795nat * 12549076656233958353659347336803947287922716146853412054870763148006372261952nat) % 52435875175126190479447740508185965837690552500527637822603658699938581184513nat == 698,
        (8274303890181062358903908957270349523419013639438526514905314309974916069885nat * 12549076656233958353659347336803947287922716146853412054870763148006372261952nat) % 52435875175126190479447740508185965837690552500527637822603658699938581184513nat == 697,
        (21360462037437758667509192402980240753061739126422619057803255258252138510832nat * 12549076656233958353659347336803947287922716146853412054870763148006372261952nat) % 52435875175126190479447740508185965837690552500527637822603658699938581184513nat == 703,
        (10440123150373944202833688410664264575172859461837330663552988650216171239922nat * 12549076656233958353659347336803947287922716146853412054870763148006372261952nat) % 52435875175126190479447740508185965837690552500527637822603658699938581184513nat == 702,
{
}

/// The table of radices in Montgomery form holds the radices.
pub proof fn lemma_radix_montgomery(k: int)
    requires
        0 <= k < 27,
    ensures
        Scalar(S_I_DECOMPOSITION_MONTGOMERY[k]).wf(),
        Scalar(S_I_DECOMPOSITION_MONTGOMERY[k]).value() == radix_at(k),
{
    lemma_radix_montgomery_numbers();
    if k == 0 {
        assert(Scalar(S_I_DECOMPOSITION_MONTGOMERY[0]).raw() == 17028823517051994979649633496192410649554047481625010760507906577769628170758nat);
        assert(Scalar(S_I_DECOMPOSITION_MONTGOMERY[0]).value() == 693);
    } else if k == 1 {
        assert(Scalar(S_I_DECOMPOSITION_MONTGOMERY[1]).raw() == 49789840178243438373676145473140339183220686475380875943258706401877529983488nat);
        assert(Scalar(S_I_DECOMPOSITION_MONTGOMERY[1]).value() == 696);
    } else if k == 2 {
        assert(Scalar(S_I_DECOMPOSITION_MONTGOMERY[2]).raw() == 27949162404115809444325137488508386827442927146210299154758173185805595441668nat);
        assert(Scalar(S_I_DECOMPOSITION_MONTGOMERY[2]).value() == 694);
    } else if k == 3 {
        assert(Scalar(S_I_DECOMPOSITION_MONTGOMERY[3]).raw() == 6199727216087585760000736229222835390784818369630990017269534876563352320573nat);
        assert(Scalar(S_I_DECOMPOSITION_MONTGOMERY[3]).value() == 668);
    } else if k == 4 {
        assert(Scalar(S_I_DECOMPOSITION_MONTGOMERY[4]).raw() == 21451704623537163912535799128326641672181389679013886708815150165081829931557nat);
        assert(Scalar(S_I_DECOMPOSITION_MONTGOMERY[4]).value() == 679);
    } else if k == 5 {
        assert(Scalar(S_I_DECOMPOSITION_MONTGOMERY[5]).raw() == 38869501291179623909000641480824363005331806810795587549008439793841562712578nat);
        assert(Scalar(S_I_DECOMPOSITION_MONTGOMERY[5]).value() == 695);
    } else if k == 6 {
        assert(Scalar(S_I_DECOMPOSITION_MONTGOMERY[6]).raw() == 47624020918050556529746366019746424131466840652982071794611032061636274813451nat);
        assert(Scalar(S_I_DECOMPOSITION_MONTGOMERY[6]).value() == 691);
    } else if k == 7 {
        assert(Scalar(S_I_DECOMPOSITION_MONTGOMERY[7]).raw() == 17028823517051994979649633496192410649554047481625010760507906577769628170758nat);
        assert(Scalar(S_I_DECOMPOSITION_MONTGOMERY[7]).value() == 693);
    } else if k == 8 {
        assert(Scalar(S_I_DECOMPOSITION_MONTGOMERY[8]).raw() == 41035320551372505752930420934218278057085652633194391697656114134082817882615nat);
        assert(Scalar(S_I_DECOMPOSITION_MONTGOMERY[8]).value() == 700);
    } else if k == 9 {
        assert(Scalar(S_I_DECOMPOSITION_MONTGOMERY[9]).raw() == 14863004256859113135719854042798495597800201659226206611860232237528373000721nat);
        assert(Scalar(S_I_DECOMPOSITION_MONTGOMERY[9]).value() == 688);
    } else if k == 10 {
        assert(Scalar(S_I_DECOMPOSITION_MONTGOMERY[10]).raw() == 41035320551372505752930420934218278057085652633194391697656114134082817882615nat);
        assert(Scalar(S_I_DECOMPOSITION_MONTGOMERY[10]).value() == 700);
    } else if k == 11 {
        assert(Scalar(S_I_DECOMPOSITION_MONTGOMERY[11]).raw() == 27949162404115809444325137488508386827442927146210299154758173185805595441668nat);
        assert(Scalar(S_I_DECOMPOSITION_MONTGOMERY[11]).value() == 694);
    } else if k == 12 {
        assert(Scalar(S_I_DECOMPOSITION_MONTGOMERY[12]).raw() == 51955659438436320217605924926534254234974532297779680091906380742118785153525nat);
        assert(Scalar(S_I_DECOMPOSITION_MONTGOMERY[12]).value() == 701);
    } else if k == 13 {
        assert(Scalar(S_I_DECOMPOSITION_MONTGOMERY[13]).raw() == 27949162404115809444325137488508386827442927146210299154758173185805595441668nat);
        assert(Scalar(S_I_DECOMPOSITION_MONTGOMERY[13]).value() == 694);
    } else if k == 14 {
        assert(Scalar(S_I_DECOMPOSITION_MONTGOMERY[14]).raw() == 30114981664308691288254916941902301879196772968609103303405847526046850611705nat);
        assert(Scalar(S_I_DECOMPOSITION_MONTGOMERY[14]).value() == 699);
    } else if k == 15 {
        assert(Scalar(S_I_DECOMPOSITION_MONTGOMERY[15]).raw() == 51955659438436320217605924926534254234974532297779680091906380742118785153525nat);
        assert(Scalar(S_I_DECOMPOSITION_MONTGOMERY[15]).value() == 701);
    } else if k == 16 {
        assert(Scalar(S_I_DECOMPOSITION_MONTGOMERY[16]).raw() == 51955659438436320217605924926534254234974532297779680091906380742118785153525nat);
        assert(Scalar(S_I_DECOMPOSITION_MONTGOMERY[16]).value() == 701);
    } else if k == 17 {
        assert(Scalar(S_I_DECOMPOSITION_MONTGOMERY[17]).raw() == 51955659438436320217605924926534254234974532297779680091906380742118785153525nat);
        assert(Scalar(S_I_DECOMPOSITION_MONTGOMERY[17]).value() == 701);
    } else if k == 18 {
        assert(Scalar(S_I_DECOMPOSITION_MONTGOMERY[18]).raw() == 38869501291179623909000641480824363005331806810795587549008439793841562712578nat);
        assert(Scalar(S_I_DECOMPOSITION_MONTGOMERY[18]).value() == 695);
    } else if k == 19 {
        assert(Scalar(S_I_DECOMPOSITION_MONTGOMERY[19]).raw() == 19194642777244876823579412949586325701307893304023814909155580918010883340795nat);
        assert(Scalar(S_I_DECOMPOSITION_MONTGOMERY[19]).value() == 698);
    } else if k == 20 {
        assert(Scalar(S_I_DECOMPOSITION_MONTGOMERY[20]).raw() == 8274303890181062358903908957270349523419013639438526514905314309974916069885nat);
        assert(Scalar(S_I_DECOMPOSITION_MONTGOMERY[20]).value() == 697);
    } else if k == 21 {
        assert(Scalar(S_I_DECOMPOSITION_MONTGOMERY[21]).raw() == 21360462037437758667509192402980240753061739126422619057803255258252138510832nat);
        assert(Scalar(S_I_DECOMPOSITION_MONTGOMERY[21]).value() == 703);
    } else if k == 22 {
        assert(Scalar(S_I_DECOMPOSITION_MONTGOMERY[22]).raw() == 10440123150373944202833688410664264575172859461837330663552988650216171239922nat);
        assert(Scalar(S_I_DECOMPOSITION_MONTGOMERY[22]).value() == 702);
    } else if k == 23 {
        assert(Scalar(S_I_DECOMPOSITION_MONTGOMERY[23]).raw() == 47624020918050556529746366019746424131466840652982071794611032061636274813451nat);
        assert(Scalar(S_I_DECOMPOSITION_MONTGOMERY[23]).value() == 691);
    } else if k == 24 {
        assert(Scalar(S_I_DECOMPOSITION_MONTGOMERY[24]).raw() == 14863004256859113135719854042798495597800201659226206611860232237528373000721nat);
        assert(Scalar(S_I_DECOMPOSITION_MONTGOMERY[24]).value() == 688);
    } else if k == 25 {
        assert(Scalar(S_I_DECOMPOSITION_MONTGOMERY[25]).raw() == 21360462037437758667509192402980240753061739126422619057803255258252138510832nat);
        assert(Scalar(S_I_DECOMPOSITION_MONTGOMERY[25]).value() == 703);
    } else if k == 26 {
        assert(Scalar(S_I_DECOMPOSITION_MONTGOMERY[26]).raw() == 21451704623537163912535799128326641672181389679013886708815150165081829931557nat);
        assert(Scalar(S_I_DECOMPOSITION_MONTGOMERY[26]).value() == 679);
    }
}

/// The matrix table holds `circ(2, 1, 1)` in reduced limbs.
pub proof fn lemma_matrix(i: int, j: int)
    requires
        0 <= i < 3,
        0 <= j < 3,
    ensures
        Scalar(MATRIX_BLS[i][j]).wf(),
        Scalar(MATRIX_BLS[i][j]).value() == matrix_at(i, j),
{
    assert((21840677774127628929351007984631952355777759329170576788500533216071934541820nat * montgomery_radix_inverse()) % modulus() == 2);
    assert((10920338887063814464675503992315976177888879664585288394250266608035967270910nat * montgomery_radix_inverse()) % modulus() == 1);
    if i == j {
        assert(Scalar(MATRIX_BLS[i][j]).raw() == 21840677774127628929351007984631952355777759329170576788500533216071934541820nat);
    } else {
        assert(Scalar(MATRIX_BLS[i][j]).raw() == 10920338887063814464675503992315976177888879664585288394250266608035967270910nat);
    }
}

/// The round constants are reduced limbs.
pub proof fn lemma_round_constants(round: int, i: int)
    requires
        0 <= round < 6,
        0 <= i < 3,
    ensures
        Scalar(CONSTANTS_BLS[round][i]).wf(),
{
}

/// The small constants of the brick layer.
pub proof fn lemma_small_constants()
    ensures
        Scalar(MONTGOMERY_TWO).wf(),
        Scalar(MONTGOMERY_TWO).value() == 2,
        Scalar(MONTGOMERY_THREE).wf(),
        Scalar(MONTGOMERY_THREE).value() == 3,
        Scalar(MONTGOMERY_FOUR).wf(),
        Scalar(MONTGOMERY_FOUR).value() == 4,
{
}

} // verus!
