#version 460

layout(location = 0) out vec4 f_color;
layout(location = 1) in vec2 pos;

void main() {
    vec3 pixel_color = vec3(0.5, 0.2, 1.0);
    f_color = vec4(pixel_color, 1.0);
}
