#version 460

// Lambert shading under one light from above and in front, with some
// ambient light so that faces turned away stay visible.
layout(location = 0) in vec4 color;
layout(location = 1) in vec3 normal;
layout(location = 0) out vec4 f_color;

const vec3 LIGHT_DIRECTION = vec3(0.3, 1.0, -0.5);

void main() {
    float lit = 0.0;
    if (length(normal) > 0.0) {
        lit = max(dot(normalize(normal), normalize(LIGHT_DIRECTION)), 0.0);
    }
    f_color = vec4(color.rgb * (0.3 + 0.7 * lit), color.a);
}
